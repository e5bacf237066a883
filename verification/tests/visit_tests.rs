use banditrs::ast::expr::PyExpr;
use banditrs::ast::positions::Pos;
use banditrs::ast::scope::{ImportName, WalkState};
use banditrs::ast::visit::{NodeFacts, WalkTree};
use banditrs::ast::vnode::NodeKind;
use banditrs::engine::config::BanditConfig;
use banditrs::engine::context::CallExpr;
use banditrs::engine::issue::LineRange;
use banditrs::engine::test_set::TestSet;
use banditrs::engine::tester::wants;

fn all_tests() -> TestSet {
    let config = BanditConfig::default();
    let profile = config.default_profile();
    TestSet::new(&config, &profile)
}

fn import(name: &str, asname: Option<&str>) -> ImportName {
    ImportName { name: name.to_string(), asname: asname.map(|s| s.to_string()) }
}

fn attr(value: PyExpr, a: &str) -> PyExpr {
    PyExpr::Attribute(Box::new(value), a.to_string())
}

#[test]
fn calls_imports_and_strings() {
    let tests = all_tests();
    let (mut st, _) = WalkState::for_module("mod.py", Ok("mod".to_string()));
    let v = st.visit(NodeFacts::Import(vec![import("os", None)]), &tests);
    assert_eq!(v.kind, NodeKind::Import);
    assert_eq!(v.module.as_deref(), Some("os"));
    assert!(v.run);
    let v = st.visit(NodeFacts::ImportFrom { module: Some("a".to_string()), names: vec![import("b", None)] }, &tests);
    assert_eq!(v.kind, NodeKind::ImportFrom);
    assert_eq!((v.module.as_deref(), v.name.as_deref()), (Some("a"), Some("b")));
    let call = CallExpr { func: attr(PyExpr::Name("os".to_string()), "system"), args: vec![], keywords: vec![] };
    let v = st.visit(NodeFacts::Call(call), &tests);
    assert_eq!((v.qualname.as_deref(), v.name.as_deref()), (Some("os.system"), Some("system")));
    assert!(v.run && v.call.is_some());
    let call = CallExpr { func: PyExpr::Name("b".to_string()), args: vec![], keywords: vec![] };
    let v = st.visit(NodeFacts::Call(call), &tests);
    assert_eq!((v.qualname.as_deref(), v.name.as_deref()), (Some("a.b"), Some("b")));
    let v = st.visit(NodeFacts::Str { value: "x".to_string(), in_expr_statement: false }, &tests);
    assert_eq!(v.run, wants(&tests, NodeKind::Str));
    assert!(v.parent_range && v.str_val.as_deref() == Some("x"));
    let v = st.visit(NodeFacts::Str { value: "doc".to_string(), in_expr_statement: true }, &tests);
    assert!(!v.run);
    let v = st.visit(NodeFacts::FunctionDef { name: "f".to_string(), defaults: vec![] }, &tests);
    assert_eq!((v.qualname.as_deref(), v.name.as_deref()), (Some("mod.f"), Some("f")));
    assert_eq!(v.run, wants(&tests, NodeKind::FunctionDef));
    assert!(v.pops_namespace && v.function.is_some());
    assert_eq!(st.namespace, "mod.f");
    st.leave(v.ns_len);
    assert_eq!(st.namespace, "mod");
}

#[test]
fn scopes_and_plain_nodes() {
    let tests = all_tests();
    let (mut st, _) = WalkState::for_module("m.py", Ok("m".to_string()));
    let c = st.visit(NodeFacts::ClassDef { name: "C".to_string() }, &tests);
    assert!(!c.run && c.pops_namespace);
    assert_eq!(st.namespace, "m.C");
    let a = st.visit(NodeFacts::AsyncFunctionDef { defaults: vec![] }, &tests);
    assert!(!a.pops_namespace && a.qualname.is_none());
    assert_eq!(st.namespace, "m.C");
    assert!(st.visit(NodeFacts::Assert, &tests).run);
    assert_eq!(st.visit(NodeFacts::ExceptHandler, &tests).run, wants(&tests, NodeKind::ExceptHandler));
    assert!(!st.visit(NodeFacts::Other, &tests).run);
    let rel = st.visit(NodeFacts::ImportFrom { module: None, names: vec![import("x", Some("y"))] }, &tests);
    assert_eq!(rel.kind, NodeKind::Import);
    assert_eq!(st.import_aliases.get("y").map(|s| s.as_str()), Some("x"));
    st.leave(c.ns_len);
    assert_eq!(st.namespace, "m");
    let v = st.visit(NodeFacts::Bytes { value: b"k".to_vec(), in_expr_statement: false }, &tests);
    let pos = Some(Pos { lineno: 2, col_offset: 0, end_lineno: 2, end_col_offset: 4 });
    let ctx = st.context("m.py", pos, LineRange::single(2), v);
    assert_eq!(ctx.bytes_val().map(|b| b.as_slice()), Some(&b"k"[..]));
    assert_eq!(ctx.lineno(), Some(2));
    assert!(ctx.is_module_imported_exact("x"));
    let f = st.file_context("m.py");
    assert_eq!(f.lineno(), Some(0));
    assert_eq!((f.linerange.start, f.linerange.end), (0, 1));
}

fn tree(facts: NodeFacts, children: Vec<WalkTree>) -> WalkTree {
    WalkTree { facts, children }
}

#[test]
fn walk_visits_in_order_and_restores_scopes() {
    let tests = all_tests();
    let (mut st, _) = WalkState::for_module("m.py", Ok("m".to_string()));
    let call = CallExpr { func: attr(PyExpr::Name("os".to_string()), "system"), args: vec![], keywords: vec![] };
    let forest = vec![
        tree(NodeFacts::Import(vec![import("os", None)]), vec![]),
        tree(
            NodeFacts::ClassDef { name: "C".to_string() },
            vec![tree(
                NodeFacts::FunctionDef { name: "f".to_string(), defaults: vec![] },
                vec![tree(NodeFacts::Call(call), vec![tree(NodeFacts::Other, vec![])])],
            )],
        ),
        tree(NodeFacts::Assert, vec![]),
    ];
    let visits = st.walk(forest, &tests);
    let kinds: Vec<NodeKind> = visits.iter().map(|v| v.kind).collect();
    assert_eq!(
        kinds,
        vec![NodeKind::Import, NodeKind::ClassDef, NodeKind::FunctionDef, NodeKind::Call, NodeKind::Other, NodeKind::Assert]
    );
    assert_eq!(visits[2].qualname.as_deref(), Some("m.C.f"));
    assert_eq!(visits[3].qualname.as_deref(), Some("os.system"));
    assert_eq!(st.namespace, "m");
    assert!(st.imports.contains("os"));
}
