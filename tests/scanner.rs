use rspack_plugin_javascript::{
    is_module_hot_accept_call, scan_dependencies, CallExpr, Callee, DependencyScanner,
    DependencySet, ErrorSpan, ExportSpecifier, ExprOrSpread, MemberProp, ModuleDecl,
    ModuleDependency, Node, ResolveKind,
};

fn span(start: u32, end: u32) -> ErrorSpan {
    ErrorSpan { start, end }
}

fn ident(name: &str) -> Node {
    Node::Ident(name.to_string())
}

fn string(value: &str) -> Node {
    Node::Str(value.to_string())
}

fn arg(expr: Node) -> ExprOrSpread {
    ExprOrSpread { spread: false, expr }
}

fn member(obj: Node, prop: &str) -> Node {
    Node::Member { obj: Box::new(obj), prop: MemberProp::Ident(prop.to_string()) }
}

fn call(callee: Callee, args: Vec<ExprOrSpread>, start: u32, end: u32) -> CallExpr {
    CallExpr { callee, args, span: span(start, end) }
}

fn require_call(specifier: &str, start: u32, end: u32) -> Node {
    Node::Call(call(
        Callee::Expr(Box::new(ident("require"))),
        vec![arg(string(specifier))],
        start,
        end,
    ))
}

fn module(body: Vec<Node>) -> Node {
    Node::Other(body)
}

/// `if (module.hot) { module.hot.accept('a', () => {}) }`
fn hot_accept_in_if() -> Node {
    let test = member(ident("module"), "hot");
    let accept = Node::Call(call(
        Callee::Expr(Box::new(member(member(ident("module"), "hot"), "accept"))),
        vec![arg(string("a")), arg(Node::Other(vec![Node::Other(vec![])]))],
        22,
        54,
    ));
    module(vec![Node::Other(vec![test, Node::Other(vec![Node::Other(vec![accept])])])])
}

fn only(deps: &[ModuleDependency]) -> (&str, ResolveKind, ErrorSpan) {
    assert_eq!(deps.len(), 1);
    (deps[0].specifier.as_str(), deps[0].kind, deps[0].span)
}

#[test]
fn test_dependency_scanner() {
    let ast = hot_accept_in_if();
    let mut scanner = DependencyScanner::default();
    scanner.visit_node(&ast);
    assert!(scanner.dependencies.len() == 1);
}

#[test]
fn hot_accept_inside_conditional_block() {
    let deps = scan_dependencies(&hot_accept_in_if());
    assert_eq!(only(&deps), ("a", ResolveKind::ModuleHotAccept, span(22, 54)));
}

#[test]
fn hot_accept_without_callback() {
    let c = call(
        Callee::Expr(Box::new(member(member(ident("module"), "hot"), "accept"))),
        vec![arg(string("./b"))],
        0,
        26,
    );
    assert!(is_module_hot_accept_call(&c));
    let deps = scan_dependencies(&module(vec![Node::Call(c)]));
    assert_eq!(only(&deps), ("./b", ResolveKind::ModuleHotAccept, span(0, 26)));
}

#[test]
fn hot_accept_needs_the_exact_chain() {
    let wrong_root = call(
        Callee::Expr(Box::new(member(member(ident("window"), "hot"), "accept"))),
        vec![arg(string("a"))],
        0,
        10,
    );
    let wrong_middle = call(
        Callee::Expr(Box::new(member(member(ident("module"), "cold"), "accept"))),
        vec![arg(string("a"))],
        0,
        10,
    );
    let wrong_prop = call(
        Callee::Expr(Box::new(member(member(ident("module"), "hot"), "decline"))),
        vec![arg(string("a"))],
        0,
        10,
    );
    let short = call(Callee::Expr(Box::new(member(ident("hot"), "accept"))), vec![arg(string("a"))], 0, 10);
    for c in [wrong_root, wrong_middle, wrong_prop, short] {
        assert!(!is_module_hot_accept_call(&c));
        assert!(scan_dependencies(&module(vec![Node::Call(c)])).is_empty());
    }
}

#[test]
fn import_declaration_gives_static_import() {
    let tree = module(vec![Node::ModuleDecl(ModuleDecl::Import { src: "x".to_string(), span: span(0, 10) })]);
    let deps = scan_dependencies(&tree);
    assert_eq!(only(&deps), ("x", ResolveKind::Import, span(0, 10)));
}

#[test]
fn require_with_one_literal_gives_require() {
    // const a = require("y")
    let tree = module(vec![Node::Other(vec![Node::Other(vec![ident("a"), require_call("y", 10, 22)])])]);
    let deps = scan_dependencies(&tree);
    assert_eq!(only(&deps), ("y", ResolveKind::Require, span(10, 22)));
}

#[test]
fn require_with_two_arguments_gives_nothing() {
    let c = call(
        Callee::Expr(Box::new(ident("require"))),
        vec![arg(string("y")), arg(ident("extra"))],
        0,
        20,
    );
    assert!(scan_dependencies(&module(vec![Node::Call(c)])).is_empty());
}

#[test]
fn require_of_other_shapes_gives_nothing() {
    let spread = call(
        Callee::Expr(Box::new(ident("require"))),
        vec![ExprOrSpread { spread: true, expr: string("y") }],
        0,
        10,
    );
    let not_literal = call(Callee::Expr(Box::new(ident("require"))), vec![arg(ident("y"))], 0, 10);
    let no_args = call(Callee::Expr(Box::new(ident("require"))), vec![], 0, 9);
    let other_name = call(Callee::Expr(Box::new(ident("requires"))), vec![arg(string("y"))], 0, 10);
    for c in [spread, not_literal, no_args, other_name] {
        assert!(scan_dependencies(&module(vec![Node::Call(c)])).is_empty());
    }
}

#[test]
fn dynamic_import_gives_dynamic_import() {
    let tree = module(vec![Node::Call(call(Callee::Import, vec![arg(string("z"))], 3, 14))]);
    let deps = scan_dependencies(&tree);
    assert_eq!(only(&deps), ("z", ResolveKind::DynamicImport, span(3, 14)));
}

#[test]
fn dynamic_import_with_options_still_counts() {
    let tree = module(vec![Node::Call(call(Callee::Import, vec![arg(string("z")), arg(ident("opts"))], 0, 20))]);
    let deps = scan_dependencies(&tree);
    assert_eq!(only(&deps), ("z", ResolveKind::DynamicImport, span(0, 20)));
}

#[test]
fn dynamic_import_of_other_shapes_gives_nothing() {
    let spread = call(Callee::Import, vec![ExprOrSpread { spread: true, expr: string("z") }], 0, 10);
    let not_literal = call(Callee::Import, vec![arg(ident("z"))], 0, 10);
    let empty = call(Callee::Import, vec![], 0, 8);
    for c in [spread, not_literal, empty] {
        assert!(scan_dependencies(&module(vec![Node::Call(c)])).is_empty());
    }
}

#[test]
fn export_all_gives_static_import() {
    let tree = module(vec![Node::ModuleDecl(ModuleDecl::ExportAll { src: "w".to_string(), span: span(0, 17) })]);
    let deps = scan_dependencies(&tree);
    assert_eq!(only(&deps), ("w", ResolveKind::Import, span(0, 17)));
}

#[test]
fn named_and_namespace_reexports_give_static_import() {
    let named = ModuleDecl::ExportNamed {
        specifiers: vec![ExportSpecifier::Named, ExportSpecifier::Named],
        src: Some("./other".to_string()),
        span: span(0, 30),
    };
    let namespace = ModuleDecl::ExportNamed {
        specifiers: vec![ExportSpecifier::Namespace],
        src: Some("./ns".to_string()),
        span: span(31, 60),
    };
    let deps = scan_dependencies(&module(vec![Node::ModuleDecl(named), Node::ModuleDecl(namespace)]));
    assert_eq!(deps.len(), 2);
    assert_eq!((deps[0].specifier.as_str(), deps[0].kind, deps[0].span), ("./other", ResolveKind::Import, span(0, 30)));
    assert_eq!((deps[1].specifier.as_str(), deps[1].kind, deps[1].span), ("./ns", ResolveKind::Import, span(31, 60)));
}

#[test]
fn default_export_from_gives_nothing() {
    let tree = module(vec![Node::ModuleDecl(ModuleDecl::ExportNamed {
        specifiers: vec![ExportSpecifier::Default],
        src: Some("w".to_string()),
        span: span(0, 17),
    })]);
    assert!(scan_dependencies(&tree).is_empty());
}

#[test]
fn local_export_without_source_gives_nothing() {
    let tree = module(vec![Node::ModuleDecl(ModuleDecl::ExportNamed {
        specifiers: vec![ExportSpecifier::Named, ExportSpecifier::Namespace],
        src: None,
        span: span(0, 12),
    })]);
    assert!(scan_dependencies(&tree).is_empty());
}

#[test]
fn duplicates_are_dropped_in_first_occurrence_order() {
    let tree = module(vec![
        require_call("b", 0, 12),
        require_call("a", 13, 25),
        require_call("b", 0, 12),
        Node::ModuleDecl(ModuleDecl::Import { src: "c".to_string(), span: span(30, 40) }),
        require_call("a", 13, 25),
        require_call("b", 50, 62),
    ]);
    let deps = scan_dependencies(&tree);
    let got: Vec<(&str, ResolveKind, u32)> =
        deps.iter().map(|d| (d.specifier.as_str(), d.kind, d.span.start)).collect();
    assert_eq!(
        got,
        vec![
            ("b", ResolveKind::Require, 0),
            ("a", ResolveKind::Require, 13),
            ("c", ResolveKind::Import, 30),
            ("b", ResolveKind::Require, 50),
        ]
    );
}

#[test]
fn nested_calls_are_found_depth_first() {
    // foo(require("x"), import("y")).then(require("z"))
    let inner = Node::Call(call(
        Callee::Expr(Box::new(ident("foo"))),
        vec![arg(require_call("x", 4, 16)), arg(Node::Call(call(Callee::Import, vec![arg(string("y"))], 18, 29)))],
        0,
        30,
    ));
    let outer = Node::Call(call(
        Callee::Expr(Box::new(member(inner, "then"))),
        vec![arg(require_call("z", 36, 48))],
        0,
        49,
    ));
    let deps = scan_dependencies(&module(vec![outer]));
    let got: Vec<&str> = deps.iter().map(|d| d.specifier.as_str()).collect();
    assert_eq!(got, vec!["x", "y", "z"]);
}

#[test]
fn computed_member_is_descended() {
    // obj[require("k")]
    let tree = Node::Member {
        obj: Box::new(ident("obj")),
        prop: MemberProp::Computed(Box::new(require_call("k", 4, 16))),
    };
    let deps = scan_dependencies(&tree);
    assert_eq!(only(&deps), ("k", ResolveKind::Require, span(4, 16)));
}

#[test]
fn scan_leaves_the_tree_unchanged() {
    let tree = hot_accept_in_if();
    let before = format!("{:?}", tree);
    let first = scan_dependencies(&tree);
    let after = format!("{:?}", tree);
    assert_eq!(before, after);
    let second = scan_dependencies(&tree);
    assert_eq!(format!("{:?}", first), format!("{:?}", second));
}

#[test]
fn scanner_accumulates_across_visits() {
    let mut scanner = DependencyScanner::new();
    scanner.visit_node(&require_call("a", 0, 5));
    scanner.visit_node(&require_call("a", 0, 5));
    scanner.visit_module_decl(&ModuleDecl::ExportAll { src: "b".to_string(), span: span(6, 9) });
    scanner.visit_call_expr(&call(Callee::Import, vec![arg(string("c"))], 10, 20));
    let got: Vec<String> = scanner.dependencies().into_iter().map(|d| d.specifier).collect();
    assert_eq!(got, vec!["a".to_string(), "b".to_string(), "c".to_string()]);
}

#[test]
fn dependency_set_keeps_first_insertion() {
    let mut set = DependencySet::new();
    let a = ModuleDependency { specifier: "a".to_string(), kind: ResolveKind::Require, span: span(1, 2) };
    let b = ModuleDependency { specifier: "a".to_string(), kind: ResolveKind::Import, span: span(1, 2) };
    assert!(set.insert_if_absent(&a));
    assert!(set.insert_if_absent(&b));
    assert!(!set.insert_if_absent(&a));
    assert_eq!(set.len(), 2);
    let out = set.to_vec();
    assert_eq!(out[0].kind, ResolveKind::Require);
    assert_eq!(out[1].kind, ResolveKind::Import);
    assert_eq!(out[1].specifier, "a");
    assert_eq!(out[1].span, span(1, 2));
}

#[test]
fn kind_codes_round_trip() {
    for kind in [ResolveKind::Import, ResolveKind::Require, ResolveKind::DynamicImport, ResolveKind::ModuleHotAccept] {
        assert_eq!(ResolveKind::from_code(kind.code()), Some(kind));
    }
    assert_eq!(ResolveKind::from_code(4), None);
}
