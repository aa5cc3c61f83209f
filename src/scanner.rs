use vstd::prelude::*;
use crate::dependency::{edge_key, EdgeKey, ErrorSpan, ModuleDependency, ResolveKind};
use crate::edge_set::{first_pos, insert_all, insert_key, lemma_insert_all_concat, lemma_insert_all_facts, lemma_insert_all_order, DependencySet};
use crate::text::text_is;
use crate::tree::{CallExpr, Callee, ExportSpecifier, ExprOrSpread, MemberProp, ModuleDecl, Node};

verus! {

// ---------------------------------------------------------------------------
// What the scan finds, as spec functions over the tree.
// ---------------------------------------------------------------------------

/// `n` is an identifier reference with text `name`.
pub open spec fn is_ident(n: Node, name: Seq<char>) -> bool {
    match n {
        Node::Ident(s) => s@ == name,
        _ => false,
    }
}

/// `p` is the plain property `.name`.
pub open spec fn is_prop(p: MemberProp, name: Seq<char>) -> bool {
    match p {
        MemberProp::Ident(s) => s@ == name,
        _ => false,
    }
}

/// The callee of `c` is exactly the member chain `module.hot.accept`,
/// compared by identifier text.
pub open spec fn spec_is_module_hot_accept_call(c: CallExpr) -> bool {
    match c.callee {
        Callee::Expr(e) => match *e {
            Node::Member { obj, prop } => is_prop(prop, "accept"@) && match *obj {
                Node::Member { obj: inner, prop: hot } => is_prop(hot, "hot"@) && is_ident(*inner, "module"@),
                _ => false,
            },
            _ => false,
        },
        _ => false,
    }
}

/// The first argument of `c` is a string literal (spread or not).
pub open spec fn first_arg_is_str(c: CallExpr) -> bool {
    c.args@.len() >= 1 && c.args@[0].expr is Str
}

/// The value of the string literal that is the first argument of `c`.
pub open spec fn first_arg_str(c: CallExpr) -> Seq<char> {
    c.args@[0].expr->Str_0@
}

/// `module.hot.accept("x", ...)`: one edge when the first argument is a
/// string literal; the callback need not be there.
pub open spec fn hot_accept_edges(c: CallExpr) -> Seq<EdgeKey> {
    if spec_is_module_hot_accept_call(c) && first_arg_is_str(c) {
        seq![edge_key(first_arg_str(c), ResolveKind::ModuleHotAccept, c.span)]
    } else {
        Seq::empty()
    }
}

/// `import("x")`: one edge when the first argument is a string literal that
/// is not spread.
pub open spec fn dynamic_import_edges(c: CallExpr) -> Seq<EdgeKey> {
    if c.callee is Import && first_arg_is_str(c) && !c.args@[0].spread {
        seq![edge_key(first_arg_str(c), ResolveKind::DynamicImport, c.span)]
    } else {
        Seq::empty()
    }
}

/// `require("x")`: one edge when the callee is the identifier `require` and
/// the only argument is a string literal that is not spread.
pub open spec fn require_edges(c: CallExpr) -> Seq<EdgeKey> {
    if c.callee is Expr && is_ident(*c.callee->Expr_0, "require"@) && c.args@.len() == 1
        && first_arg_is_str(c) && !c.args@[0].spread {
        seq![edge_key(first_arg_str(c), ResolveKind::Require, c.span)]
    } else {
        Seq::empty()
    }
}

/// The edges that a call itself declares, in the order they are looked for.
pub open spec fn call_own_edges(c: CallExpr) -> Seq<EdgeKey> {
    hot_accept_edges(c) + dynamic_import_edges(c) + require_edges(c)
}

/// `import ... from "x"`.
pub open spec fn import_edges(d: ModuleDecl) -> Seq<EdgeKey> {
    match d {
        ModuleDecl::Import { src, span } => seq![edge_key(src@, ResolveKind::Import, span)],
        _ => Seq::empty(),
    }
}

/// The edge of one specifier of a named export. `export v from "x"` gives
/// none, and neither does a specifier of an export without a source.
pub open spec fn export_specifier_edges(
    s: ExportSpecifier,
    src: Option<String>,
    span: ErrorSpan,
) -> Seq<EdgeKey> {
    if s != ExportSpecifier::Default && src is Some {
        seq![edge_key(src->0@, ResolveKind::Import, span)]
    } else {
        Seq::empty()
    }
}

/// The edges of the first `k` specifiers of a named export.
pub open spec fn named_export_edges(
    specs: Seq<ExportSpecifier>,
    src: Option<String>,
    span: ErrorSpan,
    k: int,
) -> Seq<EdgeKey>
    decreases k,
{
    if k <= 0 || k > specs.len() {
        Seq::empty()
    } else {
        named_export_edges(specs, src, span, k - 1) + export_specifier_edges(specs[k - 1], src, span)
    }
}

/// Re-exports that carry a source: `export { a } from "x"`,
/// `export * as ns from "x"`, `export * from "x"`.
pub open spec fn export_edges(d: ModuleDecl) -> Seq<EdgeKey> {
    match d {
        ModuleDecl::ExportNamed { specifiers, src, span } => named_export_edges(
            specifiers@,
            src,
            span,
            specifiers@.len() as int,
        ),
        ModuleDecl::ExportAll { src, span } => seq![edge_key(src@, ResolveKind::Import, span)],
        _ => Seq::empty(),
    }
}

/// Every edge that `n` and the nodes below it declare, depth first, each
/// node's own edges before those of its children, children in source order.
/// Duplicates are kept here; the scanner drops them.
pub open spec fn node_edges(n: Node) -> Seq<EdgeKey>
    decreases n, 0nat,
{
    match n {
        Node::ModuleDecl(d) => decl_edges(d),
        Node::Call(c) => call_edges(c),
        Node::Ident(_) => Seq::empty(),
        Node::Str(_) => Seq::empty(),
        Node::Member { obj, prop } => node_edges(*obj) + match prop {
            MemberProp::Computed(e) => node_edges(*e),
            MemberProp::Ident(_) => Seq::empty(),
        },
        Node::Other(children) => nodes_edges(children@, children@.len() as int),
    }
}

/// The edges of a module declaration and of the nodes below it.
pub open spec fn decl_edges(d: ModuleDecl) -> Seq<EdgeKey>
    decreases d, 0nat,
{
    import_edges(d) + export_edges(d) + match d {
        ModuleDecl::Other(children) => nodes_edges(children@, children@.len() as int),
        _ => Seq::empty(),
    }
}

/// The edges of a call and of the nodes below it: the call's own, then the
/// callee's, then the arguments'.
pub open spec fn call_edges(c: CallExpr) -> Seq<EdgeKey>
    decreases c, 0nat,
{
    call_own_edges(c) + match c.callee {
        Callee::Expr(e) => node_edges(*e),
        _ => Seq::empty(),
    } + args_edges(c.args@, c.args@.len() as int)
}

/// The edges of the first `k` nodes of `s`, in order.
pub open spec fn nodes_edges(s: Seq<Node>, k: int) -> Seq<EdgeKey>
    decreases s, k,
{
    if k <= 0 || k > s.len() {
        Seq::empty()
    } else {
        nodes_edges(s, k - 1) + node_edges(s[k - 1])
    }
}

/// The edges of the first `k` call arguments of `s`, in order.
pub open spec fn args_edges(s: Seq<ExprOrSpread>, k: int) -> Seq<EdgeKey>
    decreases s, k,
{
    if k <= 0 || k > s.len() {
        Seq::empty()
    } else {
        args_edges(s, k - 1) + node_edges(s[k - 1].expr)
    }
}

/// What scanning `tree` yields: every edge found, each once, in order of
/// first occurrence.
pub open spec fn scan_result(tree: Node) -> Seq<EdgeKey> {
    insert_all(Seq::empty(), node_edges(tree))
}

} // verus!

verus! {

// ---------------------------------------------------------------------------
// The scanner.
// ---------------------------------------------------------------------------

/// `insert_all` over no key, and over one key.
pub proof fn lemma_insert_all_short(acc: Seq<EdgeKey>, s: Seq<EdgeKey>)
    ensures
        s.len() == 0 ==> insert_all(acc, s) == acc,
        s.len() == 1 ==> insert_all(acc, s) == insert_key(acc, s[0]),
{
    if s.len() == 1 {
        assert(s.drop_last() =~= Seq::<EdgeKey>::empty());
        assert(insert_all(acc, s.drop_last()) == acc);
    }
}

/// Whether the callee of `node` is exactly the member chain
/// `module.hot.accept`, by identifier text.
pub fn is_module_hot_accept_call(node: &CallExpr) -> (r: bool)
    ensures
        r == spec_is_module_hot_accept_call(*node),
{
    match &node.callee {
        Callee::Expr(e) => match &**e {
            Node::Member { obj, prop } => {
                let accept = match prop {
                    MemberProp::Ident(a) => text_is(a, "accept"),
                    MemberProp::Computed(_) => false,
                };
                if !accept {
                    return false;
                }
                match &**obj {
                    Node::Member { obj: inner, prop: hot } => {
                        let is_hot = match hot {
                            MemberProp::Ident(h) => text_is(h, "hot"),
                            MemberProp::Computed(_) => false,
                        };
                        if !is_hot {
                            return false;
                        }
                        match &**inner {
                            Node::Ident(m) => text_is(m, "module"),
                            _ => false,
                        }
                    },
                    _ => false,
                }
            },
            _ => false,
        },
        _ => false,
    }
}

/// Walks a syntax tree and collects the module dependencies it declares, in
/// order of first occurrence, each once.
pub struct DependencyScanner {
    pub dependencies: DependencySet,
}

impl Default for DependencyScanner {
    fn default() -> (r: DependencyScanner)
        ensures
            r.wf(),
            r.edges() == Seq::<EdgeKey>::empty(),
    {
        DependencyScanner::new()
    }
}

impl DependencyScanner {
    pub open spec fn wf(&self) -> bool {
        self.dependencies.wf()
    }

    /// The edges collected so far.
    pub open spec fn edges(&self) -> Seq<EdgeKey> {
        self.dependencies@
    }

    pub fn new() -> (r: DependencyScanner)
        ensures
            r.wf(),
            r.edges() == Seq::<EdgeKey>::empty(),
    {
        DependencyScanner { dependencies: DependencySet::new() }
    }

    fn add_dependency(&mut self, specifier: &String, kind: ResolveKind, span: ErrorSpan)
        requires
            old(self).wf(),
        ensures
            final(self).wf(),
            final(self).edges() == insert_key(old(self).edges(), edge_key(specifier@, kind, span)),
    {
        let dep = ModuleDependency { specifier: specifier.clone(), kind, span };
        self.dependencies.insert_if_absent(&dep);
    }

    fn add_import(&mut self, module_decl: &ModuleDecl)
        requires
            old(self).wf(),
        ensures
            final(self).wf(),
            final(self).edges() == insert_all(old(self).edges(), import_edges(*module_decl)),
    {
        proof {
            lemma_insert_all_short(self.edges(), import_edges(*module_decl));
        }
        if let ModuleDecl::Import { src, span } = module_decl {
            self.add_dependency(src, ResolveKind::Import, *span);
        }
    }

    fn add_require(&mut self, call_expr: &CallExpr)
        requires
            old(self).wf(),
        ensures
            final(self).wf(),
            final(self).edges() == insert_all(old(self).edges(), require_edges(*call_expr)),
    {
        proof {
            lemma_insert_all_short(self.edges(), require_edges(*call_expr));
        }
        if let Callee::Expr(e) = &call_expr.callee {
            if let Node::Ident(name) = &**e {
                if text_is(name, "require") && call_expr.args.len() == 1 {
                    let arg = &call_expr.args[0];
                    if !arg.spread {
                        if let Node::Str(s) = &arg.expr {
                            self.add_dependency(s, ResolveKind::Require, call_expr.span);
                        }
                    }
                }
            }
        }
    }

    fn add_dynamic_import(&mut self, node: &CallExpr)
        requires
            old(self).wf(),
        ensures
            final(self).wf(),
            final(self).edges() == insert_all(old(self).edges(), dynamic_import_edges(*node)),
    {
        proof {
            lemma_insert_all_short(self.edges(), dynamic_import_edges(*node));
        }
        if let Callee::Import = &node.callee {
            if node.args.len() >= 1 {
                let arg = &node.args[0];
                if !arg.spread {
                    if let Node::Str(s) = &arg.expr {
                        self.add_dependency(s, ResolveKind::DynamicImport, node.span);
                    }
                }
            }
        }
    }

    fn add_module_hot(&mut self, node: &CallExpr)
        requires
            old(self).wf(),
        ensures
            final(self).wf(),
            final(self).edges() == insert_all(old(self).edges(), hot_accept_edges(*node)),
    {
        proof {
            lemma_insert_all_short(self.edges(), hot_accept_edges(*node));
        }
        if !is_module_hot_accept_call(node) {
            return;
        }
        // module.hot.accept(dependency_id, callback)
        if node.args.len() >= 1 {
            if let Node::Str(s) = &node.args[0].expr {
                self.add_dependency(s, ResolveKind::ModuleHotAccept, node.span);
            }
        }
    }

    /// A namespace re-export without a source cannot come from the grammar;
    /// should such a tree be built by hand, the specifier gives no edge
    /// rather than an edge with a made-up specifier.
    fn add_export(&mut self, module_decl: &ModuleDecl)
        requires
            old(self).wf(),
        ensures
            final(self).wf(),
            final(self).edges() == insert_all(old(self).edges(), export_edges(*module_decl)),
    {
        let ghost e0 = self.edges();
        proof {
            lemma_insert_all_short(e0, export_edges(*module_decl));
        }
        match module_decl {
            ModuleDecl::ExportNamed { specifiers, src, span } => {
                let mut i: usize = 0;
                while i < specifiers.len()
                    invariant
                        self.wf(),
                        i <= specifiers@.len(),
                        self.edges() == insert_all(e0, named_export_edges(specifiers@, *src, *span, i as int)),
                    decreases specifiers@.len() - i,
                {
                    let ghost before = self.edges();
                    let ghost one = export_specifier_edges(specifiers@[i as int], *src, *span);
                    proof {
                        lemma_insert_all_short(before, one);
                        lemma_insert_all_concat(e0, named_export_edges(specifiers@, *src, *span, i as int), one);
                    }
                    match specifiers[i] {
                        ExportSpecifier::Default => {
                            // `export v from "x"` has no agreed meaning; it is left out.
                        },
                        _ => {
                            if let Some(source) = src {
                                self.add_dependency(source, ResolveKind::Import, *span);
                            }
                        },
                    }
                    i = i + 1;
                }
            },
            ModuleDecl::ExportAll { src, span } => {
                self.add_dependency(src, ResolveKind::Import, *span);
            },
            _ => {},
        }
    }

    /// Records the edges of a module declaration, then of the nodes below it.
    pub fn visit_module_decl(&mut self, node: &ModuleDecl)
        requires
            old(self).wf(),
        ensures
            final(self).wf(),
            final(self).edges() == insert_all(old(self).edges(), decl_edges(*node)),
        decreases node,
    {
        let ghost e0 = self.edges();
        self.add_import(node);
        self.add_export(node);
        let ghost e2 = self.edges();
        let ghost rest = if node is Other {
            nodes_edges(node->Other_0@, node->Other_0@.len() as int)
        } else {
            Seq::empty()
        };
        proof {
            lemma_insert_all_short(e2, rest);
            lemma_insert_all_concat(e0, import_edges(*node), export_edges(*node));
            lemma_insert_all_concat(e0, import_edges(*node) + export_edges(*node), rest);
        }
        if let ModuleDecl::Other(children) = node {
            self.visit_nodes(children);
        }
    }

    /// Records the edges of a call, then of its callee and its arguments.
    pub fn visit_call_expr(&mut self, node: &CallExpr)
        requires
            old(self).wf(),
        ensures
            final(self).wf(),
            final(self).edges() == insert_all(old(self).edges(), call_edges(*node)),
        decreases node,
    {
        let ghost e0 = self.edges();
        let ghost hot = hot_accept_edges(*node);
        let ghost dynamic = dynamic_import_edges(*node);
        let ghost req = require_edges(*node);
        let ghost callee = if node.callee is Expr {
            node_edges(*node.callee->Expr_0)
        } else {
            Seq::empty()
        };
        let ghost args = args_edges(node.args@, node.args@.len() as int);
        self.add_module_hot(node);
        self.add_dynamic_import(node);
        self.add_require(node);
        let ghost e3 = self.edges();
        proof {
            lemma_insert_all_short(e3, callee);
        }
        if let Callee::Expr(e) = &node.callee {
            self.visit_node(&**e);
        }
        self.visit_args(&node.args);
        proof {
            lemma_insert_all_concat(e0, hot, dynamic);
            lemma_insert_all_concat(e0, hot + dynamic, req);
            lemma_insert_all_concat(e0, hot + dynamic + req, callee);
            lemma_insert_all_concat(e0, hot + dynamic + req + callee, args);
        }
    }

    /// Records the edges of `node` and of every node below it, depth first.
    pub fn visit_node(&mut self, node: &Node)
        requires
            old(self).wf(),
        ensures
            final(self).wf(),
            final(self).edges() == insert_all(old(self).edges(), node_edges(*node)),
        decreases node,
    {
        let ghost e0 = self.edges();
        proof {
            lemma_insert_all_short(e0, Seq::empty());
        }
        match node {
            Node::ModuleDecl(d) => self.visit_module_decl(d),
            Node::Call(c) => self.visit_call_expr(c),
            Node::Ident(_) => {},
            Node::Str(_) => {},
            Node::Member { obj, prop } => {
                self.visit_node(&**obj);
                let ghost e1 = self.edges();
                let ghost tail = if prop is Computed {
                    node_edges(*prop->Computed_0)
                } else {
                    Seq::empty()
                };
                proof {
                    lemma_insert_all_short(e1, tail);
                    lemma_insert_all_concat(e0, node_edges(**obj), tail);
                }
                if let MemberProp::Computed(e) = prop {
                    self.visit_node(&**e);
                }
            },
            Node::Other(children) => self.visit_nodes(children),
        }
    }

    fn visit_nodes(&mut self, nodes: &Vec<Node>)
        requires
            old(self).wf(),
        ensures
            final(self).wf(),
            final(self).edges() == insert_all(old(self).edges(), nodes_edges(nodes@, nodes@.len() as int)),
        decreases nodes,
    {
        let ghost e0 = self.edges();
        proof {
            lemma_insert_all_short(e0, Seq::empty());
        }
        let mut i: usize = 0;
        while i < nodes.len()
            invariant
                self.wf(),
                i <= nodes@.len(),
                self.edges() == insert_all(e0, nodes_edges(nodes@, i as int)),
            decreases nodes@.len() - i,
        {
            proof {
                lemma_insert_all_concat(e0, nodes_edges(nodes@, i as int), node_edges(nodes@[i as int]));
            }
            self.visit_node(&nodes[i]);
            i = i + 1;
        }
    }

    fn visit_args(&mut self, args: &Vec<ExprOrSpread>)
        requires
            old(self).wf(),
        ensures
            final(self).wf(),
            final(self).edges() == insert_all(old(self).edges(), args_edges(args@, args@.len() as int)),
        decreases args,
    {
        let ghost e0 = self.edges();
        proof {
            lemma_insert_all_short(e0, Seq::empty());
        }
        let mut i: usize = 0;
        while i < args.len()
            invariant
                self.wf(),
                i <= args@.len(),
                self.edges() == insert_all(e0, args_edges(args@, i as int)),
            decreases args@.len() - i,
        {
            proof {
                lemma_insert_all_concat(e0, args_edges(args@, i as int), node_edges(args@[i as int].expr));
            }
            self.visit_node(&args[i].expr);
            i = i + 1;
        }
    }

    /// The dependencies collected so far, in order of first occurrence.
    pub fn dependencies(&self) -> (r: Vec<ModuleDependency>)
        requires
            self.wf(),
        ensures
            r@.len() == self.edges().len(),
            forall|i: int| 0 <= i < r@.len() ==> #[trigger] r@[i].key() == self.edges()[i],
    {
        self.dependencies.to_vec()
    }
}

/// The module dependencies that `tree` declares, each once, in order of
/// first occurrence.
pub fn scan_dependencies(tree: &Node) -> (r: Vec<ModuleDependency>)
    ensures
        r@.len() == scan_result(*tree).len(),
        forall|i: int| 0 <= i < r@.len() ==> #[trigger] r@[i].key() == scan_result(*tree)[i],
{
    let mut scanner = DependencyScanner::new();
    scanner.visit_node(tree);
    scanner.dependencies()
}

} // verus!

verus! {

/// The scan keeps each edge once and in order of first occurrence: its
/// result holds no edge twice, holds exactly the edges that the tree
/// declares, has as many entries as there are distinct declared edges, and
/// lists them in the order in which each first occurs in the tree.
pub proof fn lemma_scan_dedup_in_order(tree: Node)
    ensures
        scan_result(tree).no_duplicates(),
        forall|k: EdgeKey| #[trigger] scan_result(tree).contains(k) <==> node_edges(tree).contains(k),
        scan_result(tree).len() == node_edges(tree).to_set().len(),
        forall|i: int, j: int| 0 <= i < j < scan_result(tree).len() ==>
            first_pos(node_edges(tree), #[trigger] scan_result(tree)[i])
                < first_pos(node_edges(tree), #[trigger] scan_result(tree)[j]),
{
    let raw = node_edges(tree);
    let r = scan_result(tree);
    lemma_insert_all_facts(Seq::empty(), raw);
    lemma_insert_all_order(raw);
    assert(r.to_set() =~= raw.to_set()) by {
        assert forall|k: EdgeKey| r.to_set().contains(k) <==> raw.to_set().contains(k) by {
            assert(r.contains(k) <==> (Seq::<EdgeKey>::empty().contains(k) || raw.contains(k)));
        }
    }
    r.unique_seq_to_set();
}

} // verus!
