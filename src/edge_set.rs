use vstd::prelude::*;
use linked_hash_set::LinkedHashSet;
use crate::dependency::{edge_view, Edge, EdgeKey, ModuleDependency, ResolveKind};

verus! {

#[verifier::external_type_specification]
#[verifier::external_body]
#[verifier::reject_recursive_types(T)]
#[verifier::reject_recursive_types(S)]
pub struct ExLinkedHashSet<T, S>(LinkedHashSet<T, S>);

/// The edges that a `LinkedHashSet` holds, in the order in which they were
/// first inserted.
pub uninterp spec fn edge_list(s: LinkedHashSet<Edge>) -> Seq<EdgeKey>;

/// Relies on `LinkedHashSet::new`: a new set is empty.
#[verifier::external_body]
fn empty_edges() -> (r: LinkedHashSet<Edge>)
    ensures
        edge_list(r) == Seq::<EdgeKey>::empty(),
{
    LinkedHashSet::new()
}

/// Relies on `LinkedHashSet::insert_if_absent`: a value that is not present
/// goes to the end of the order and `true` comes back; a value that is
/// present leaves the set and its order as they were, and `false` comes back.
#[verifier::external_body]
fn insert_edge(s: &mut LinkedHashSet<Edge>, e: Edge) -> (r: bool)
    ensures
        r == !edge_list(*old(s)).contains(edge_view(e)),
        edge_list(*final(s)) == insert_key(edge_list(*old(s)), edge_view(e)),
{
    s.insert_if_absent(e)
}

/// Relies on `LinkedHashSet::len`: the number of values held.
#[verifier::external_body]
fn edge_count(s: &LinkedHashSet<Edge>) -> (r: usize)
    ensures
        r == edge_list(*s).len(),
{
    s.len()
}

/// Relies on `LinkedHashSet::iter`: the values, in insertion order.
#[verifier::external_body]
fn edge_items(s: &LinkedHashSet<Edge>) -> (r: Vec<Edge>)
    ensures
        r@.map_values(|e: Edge| edge_view(e)) == edge_list(*s),
{
    s.iter().cloned().collect()
}

/// `acc` with `k` added at the end, unless `acc` already holds it.
pub open spec fn insert_key(acc: Seq<EdgeKey>, k: EdgeKey) -> Seq<EdgeKey> {
    if acc.contains(k) {
        acc
    } else {
        acc.push(k)
    }
}

/// `acc` with each key of `s` added in turn by `insert_key`: the keys of
/// `acc` and then the keys of `s` that are new, each once, in order of first
/// occurrence.
pub open spec fn insert_all(acc: Seq<EdgeKey>, s: Seq<EdgeKey>) -> Seq<EdgeKey>
    decreases s.len(),
{
    if s.len() == 0 {
        acc
    } else {
        insert_key(insert_all(acc, s.drop_last()), s.last())
    }
}

/// Inserting two sequences one after the other is inserting their
/// concatenation.
pub proof fn lemma_insert_all_concat(acc: Seq<EdgeKey>, s1: Seq<EdgeKey>, s2: Seq<EdgeKey>)
    ensures
        insert_all(acc, s1 + s2) == insert_all(insert_all(acc, s1), s2),
    decreases s2.len(),
{
    if s2.len() == 0 {
        assert(s1 + s2 =~= s1);
    } else {
        assert((s1 + s2).drop_last() =~= s1 + s2.drop_last());
        lemma_insert_all_concat(acc, s1, s2.drop_last());
    }
}

/// What `insert_all` keeps: nothing is lost, nothing is invented, and no key
/// appears twice when none did before.
pub proof fn lemma_insert_all_facts(acc: Seq<EdgeKey>, s: Seq<EdgeKey>)
    requires
        acc.no_duplicates(),
    ensures
        insert_all(acc, s).no_duplicates(),
        acc.is_prefix_of(insert_all(acc, s)),
        forall|k: EdgeKey| #[trigger] insert_all(acc, s).contains(k) <==> (acc.contains(k) || s.contains(k)),
    decreases s.len(),
{
    if s.len() > 0 {
        lemma_insert_all_facts(acc, s.drop_last());
        let prev = insert_all(acc, s.drop_last());
        assert forall|k: EdgeKey| #[trigger] insert_all(acc, s).contains(k) <==> (acc.contains(k) || s.contains(k)) by {
            if s.contains(k) && !s.drop_last().contains(k) {
                let i = choose|i: int| 0 <= i < s.len() && s[i] == k;
                if i < s.len() - 1 {
                    assert(s.drop_last()[i] == k);
                }
                if !prev.contains(k) {
                    assert(prev.push(k)[prev.len() as int] == k);
                }
            }
            if s.drop_last().contains(k) {
                let i = choose|i: int| 0 <= i < s.drop_last().len() && s.drop_last()[i] == k;
                assert(s[i] == k);
            }
            if !prev.contains(s.last()) && prev.push(s.last()).contains(k) && k != s.last() {
                let i = choose|i: int| 0 <= i < prev.push(s.last()).len() && prev.push(s.last())[i] == k;
                assert(prev[i] == k);
            }
            if prev.contains(k) && !prev.contains(s.last()) {
                let i = choose|i: int| 0 <= i < prev.len() && prev[i] == k;
                assert(prev.push(s.last())[i] == k);
            }
            if k == s.last() {
                assert(s[s.len() - 1] == k);
                if !prev.contains(k) {
                    assert(prev.push(k)[prev.len() as int] == k);
                }
            }
        }
        assert(acc.is_prefix_of(insert_all(acc, s))) by {
            if !prev.contains(s.last()) {
                assert forall|i: int| 0 <= i < acc.len() implies acc[i] == prev.push(s.last())[i] by {
                    assert(acc[i] == prev[i]);
                }
            }
        }
    }
}

/// An insertion-ordered set of dependency edges: an edge is kept at its
/// first insertion, later equal edges are dropped, and the order in which
/// edges come out is the order of first insertion.
pub struct DependencySet {
    inner: LinkedHashSet<Edge>,
}

impl View for DependencySet {
    type V = Seq<EdgeKey>;

    closed spec fn view(&self) -> Seq<EdgeKey> {
        edge_list(self.inner)
    }
}

impl DependencySet {
    /// No edge is held twice, and every kind code stands for a kind.
    pub open spec fn wf(&self) -> bool {
        &&& self@.no_duplicates()
        &&& forall|i: int| 0 <= i < self@.len() ==> ResolveKind::spec_from_code(#[trigger] self@[i].1) is Some
    }

    pub fn new() -> (r: DependencySet)
        ensures
            r.wf(),
            r@ == Seq::<EdgeKey>::empty(),
    {
        DependencySet { inner: empty_edges() }
    }

    /// Adds `dep` unless an equal edge is held already; `true` when it was added.
    pub fn insert_if_absent(&mut self, dep: &ModuleDependency) -> (r: bool)
        requires
            old(self).wf(),
        ensures
            final(self).wf(),
            final(self)@ == insert_key(old(self)@, dep.key()),
            r == !old(self)@.contains(dep.key()),
    {
        let ghost before = self@;
        let r = insert_edge(&mut self.inner, dep.to_edge());
        proof {
            if !before.contains(dep.key()) {
                assert forall|i: int| 0 <= i < self@.len() implies ResolveKind::spec_from_code(#[trigger] self@[i].1) is Some by {
                    if i < before.len() {
                        assert(self@[i] == before[i]);
                    }
                }
                assert forall|i: int, j: int| 0 <= i < self@.len() && 0 <= j < self@.len() && i != j implies self@[i] != self@[j] by {
                    if i == before.len() {
                        assert(before[j] == self@[j]);
                    } else if j == before.len() {
                        assert(before[i] == self@[i]);
                    } else {
                        assert(before[i] == self@[i]);
                        assert(before[j] == self@[j]);
                    }
                }
            }
        }
        r
    }

    pub fn len(&self) -> (r: usize)
        ensures
            r == self@.len(),
    {
        edge_count(&self.inner)
    }

    /// The dependencies held, in order of first insertion.
    pub fn to_vec(&self) -> (r: Vec<ModuleDependency>)
        requires
            self.wf(),
        ensures
            r@.len() == self@.len(),
            forall|i: int| 0 <= i < r@.len() ==> #[trigger] r@[i].key() == self@[i],
    {
        let items = edge_items(&self.inner);
        proof {
            assert(items@.len() == items@.map_values(|e: Edge| edge_view(e)).len());
        }
        let mut out: Vec<ModuleDependency> = Vec::new();
        let mut i: usize = 0;
        while i < items.len()
            invariant
                i <= items@.len(),
                items@.len() == self@.len(),
                items@.map_values(|e: Edge| edge_view(e)) == self@,
                self.wf(),
                out@.len() == i,
                forall|j: int| 0 <= j < i ==> #[trigger] out@[j].key() == self@[j],
            decreases items@.len() - i,
        {
            assert(edge_view(items@[i as int]) == self@[i as int]);
            match ModuleDependency::from_edge(&items[i]) {
                Some(d) => {
                    out.push(d);
                },
                None => {
                    assert(ResolveKind::spec_from_code(self@[i as int].1) is Some);
                },
            }
            i = i + 1;
        }
        out
    }
}

} // verus!

verus! {

/// The position of the first occurrence of `k` in `s`, or -1.
pub open spec fn first_pos(s: Seq<EdgeKey>, k: EdgeKey) -> int
    decreases s.len(),
{
    if s.len() == 0 {
        -1
    } else if s.drop_last().contains(k) {
        first_pos(s.drop_last(), k)
    } else if s.last() == k {
        s.len() - 1
    } else {
        -1
    }
}

/// `first_pos` is the least index that holds the key.
pub proof fn lemma_first_pos(s: Seq<EdgeKey>, k: EdgeKey)
    ensures
        s.contains(k) ==> 0 <= first_pos(s, k) < s.len() && s[first_pos(s, k)] == k
            && forall|j: int| 0 <= j < first_pos(s, k) ==> s[j] != k,
        !s.contains(k) ==> first_pos(s, k) == -1,
    decreases s.len(),
{
    if s.len() > 0 {
        lemma_first_pos(s.drop_last(), k);
        if s.drop_last().contains(k) {
            let f = first_pos(s, k);
            assert(s[f] == s.drop_last()[f]);
            assert forall|j: int| 0 <= j < f implies s[j] != k by {
                assert(s[j] == s.drop_last()[j]);
            }
        }
        if s.contains(k) && !s.drop_last().contains(k) {
            let i = choose|i: int| 0 <= i < s.len() && s[i] == k;
            if i < s.len() - 1 {
                assert(s.drop_last()[i] == k);
            }
            assert forall|j: int| 0 <= j < s.len() - 1 implies s[j] != k by {
                if s[j] == k {
                    assert(s.drop_last()[j] == k);
                }
            }
        }
        if !s.contains(k) && s.drop_last().contains(k) {
            let i = choose|i: int| 0 <= i < s.drop_last().len() && s.drop_last()[i] == k;
            assert(s[i] == k);
        }
        if !s.contains(k) && s.last() == k {
            assert(s[s.len() - 1] == k);
        }
    }
}

/// What `insert_all` makes of `s`, starting empty, follows the order of
/// first occurrence in `s`.
pub proof fn lemma_insert_all_order(s: Seq<EdgeKey>)
    ensures
        forall|i: int, j: int| 0 <= i < j < insert_all(Seq::empty(), s).len() ==>
            first_pos(s, #[trigger] insert_all(Seq::empty(), s)[i])
                < first_pos(s, #[trigger] insert_all(Seq::empty(), s)[j]),
        forall|i: int| 0 <= i < insert_all(Seq::empty(), s).len() ==>
            first_pos(s, #[trigger] insert_all(Seq::empty(), s)[i]) >= 0,
    decreases s.len(),
{
    let e = Seq::<EdgeKey>::empty();
    if s.len() > 0 {
        let p = s.drop_last();
        let x = s.last();
        lemma_insert_all_order(p);
        lemma_insert_all_facts(e, p);
        let prev = insert_all(e, p);
        let r = insert_all(e, s);
        assert forall|k: EdgeKey| p.contains(k) implies first_pos(s, k) == first_pos(p, k) by {}
        assert forall|i: int| 0 <= i < prev.len() implies p.contains(#[trigger] prev[i]) by {
            assert(prev.contains(prev[i]));
        }
        if !prev.contains(x) {
            assert(!p.contains(x));
            lemma_first_pos(p, x);
            assert(first_pos(s, x) == s.len() - 1);
            assert forall|i: int| 0 <= i < prev.len() implies first_pos(s, #[trigger] prev[i]) < s.len() - 1 by {
                lemma_first_pos(p, prev[i]);
            }
            assert forall|i: int| 0 <= i < r.len() implies #[trigger] r[i] == if i < prev.len() { prev[i] } else { x } by {}
        }
    }
}

} // verus!
