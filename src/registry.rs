use vstd::prelude::*;
use crate::text::text_is;

verus! {

/// The registry after `name` is registered at `offset`: the first offset
/// given for a name is the one kept.
pub open spec fn registered(m: Map<Seq<char>, u32>, name: Seq<char>, offset: u32) -> Map<Seq<char>, u32> {
    if m.contains_key(name) {
        m
    } else {
        m.insert(name, offset)
    }
}

/// Maps each parsed file's identifier to the byte offset at which its text
/// begins in the source map that holds all files. Entries are added once, on
/// a file's first parse, and never removed; registering a name again keeps
/// the offset it was first registered with.
pub struct OffsetRegistry {
    entries: Vec<(String, u32)>,
    map: Ghost<Map<Seq<char>, u32>>,
}

impl View for OffsetRegistry {
    type V = Map<Seq<char>, u32>;

    closed spec fn view(&self) -> Map<Seq<char>, u32> {
        self.map@
    }
}

impl OffsetRegistry {
    pub closed spec fn wf(&self) -> bool {
        &&& forall|i: int| 0 <= i < self.entries@.len() ==> {
            &&& #[trigger] self.map@.contains_key(self.entries@[i].0@)
            &&& self.map@[self.entries@[i].0@] == self.entries@[i].1
        }
        &&& forall|k: Seq<char>| #[trigger] self.map@.contains_key(k) ==> exists|i: int| 0 <= i < self.entries@.len() && #[trigger] self.entries@[i].0@ == k
    }

    pub fn new() -> (r: OffsetRegistry)
        ensures
            r.wf(),
            r@ == Map::<Seq<char>, u32>::empty(),
    {
        OffsetRegistry { entries: Vec::new(), map: Ghost(Map::empty()) }
    }

    /// The offset registered for `name`, if any.
    pub fn get(&self, name: &str) -> (r: Option<u32>)
        requires
            self.wf(),
        ensures
            r == if self@.contains_key(name@) { Some(self@[name@]) } else { None::<u32> },
    {
        let mut i: usize = 0;
        while i < self.entries.len()
            invariant
                self.wf(),
                i <= self.entries@.len(),
                forall|j: int| 0 <= j < i ==> self.entries@[j].0@ != name@,
            decreases self.entries@.len() - i,
        {
            if text_is(&self.entries[i].0, name) {
                assert(self.map@.contains_key(self.entries@[i as int].0@));
                return Some(self.entries[i].1);
            }
            i = i + 1;
        }
        proof {
            if self@.contains_key(name@) {
                let w = choose|j: int| 0 <= j < self.entries@.len() && #[trigger] self.entries@[j].0@ == name@;
                assert(self.entries@[w].0@ != name@);
            }
        }
        None
    }

    /// Registers `name` at `offset` unless it is registered already; `true`
    /// when it was added.
    pub fn register(&mut self, name: &str, offset: u32) -> (r: bool)
        requires
            old(self).wf(),
        ensures
            final(self).wf(),
            final(self)@ == registered(old(self)@, name@, offset),
            r == !old(self)@.contains_key(name@),
    {
        if self.get(name).is_some() {
            return false;
        }
        let ghost before = self.entries@;
        let ghost m0 = self.map@;
        self.entries.push((name.to_owned(), offset));
        self.map = Ghost(m0.insert(name@, offset));
        proof {
            assert forall|i: int| 0 <= i < self.entries@.len() implies {
                &&& #[trigger] self.map@.contains_key(self.entries@[i].0@)
                &&& self.map@[self.entries@[i].0@] == self.entries@[i].1
            } by {
                if i < before.len() {
                    assert(self.entries@[i] == before[i]);
                    assert(m0.contains_key(before[i].0@));
                    assert(before[i].0@ != name@);
                }
            }
            assert forall|k: Seq<char>| #[trigger] self.map@.contains_key(k) implies exists|i: int| 0 <= i < self.entries@.len() && #[trigger] self.entries@[i].0@ == k by {
                if k == name@ {
                    assert(self.entries@[before.len() as int].0@ == k);
                } else {
                    let w = choose|j: int| 0 <= j < before.len() && #[trigger] before[j].0@ == k;
                    assert(self.entries@[w] == before[w]);
                }
            }
        }
        true
    }
}

/// Registering a name that is registered already changes nothing: the first
/// offset stays, and so does every other entry.
pub proof fn lemma_register_keeps_first(m: Map<Seq<char>, u32>, name: Seq<char>, first: u32, second: u32)
    ensures
        registered(registered(m, name, first), name, second) == registered(m, name, first),
        registered(registered(m, name, first), name, second)[name] == if m.contains_key(name) {
            m[name]
        } else {
            first
        },
        forall|k: Seq<char>| #[trigger] m.contains_key(k) ==> registered(registered(m, name, first), name, second).contains_key(k)
            && registered(registered(m, name, first), name, second)[k] == m[k],
{
}

} // verus!
