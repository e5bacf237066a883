use banditrs::ast::expr::PyExpr;
use banditrs::ast::scope::{ImportName, WalkState};
use banditrs::ast::tree::{ElifElse, PyNode};
use banditrs::ast::tree_walk::{copy_expr, facts_of, walk_tree};
use banditrs::ast::visit::{NodeFacts, WalkTree};
use banditrs::ast::vnode::{NodeKind, VNode};
use banditrs::engine::config::BanditConfig;
use banditrs::engine::context::CallExpr;
use banditrs::engine::test_set::TestSet;

fn b(n: PyNode) -> Box<PyNode> {
    Box::new(n)
}

fn s(t: &str) -> PyNode {
    PyNode::StrConst { value: t.to_string() }
}

fn system_call() -> CallExpr {
    CallExpr {
        func: PyExpr::Attribute(Box::new(PyExpr::Name("os".to_string())), "system".to_string()),
        args: vec![PyExpr::Str("ls".to_string())],
        keywords: vec![],
    }
}

fn module() -> PyNode {
    let args = PyNode::Arguments { posonlyargs: vec![], args: vec![], vararg: None, kwonlyargs: vec![], kwarg: None };
    let call = PyNode::Call {
        call: system_call(),
        func: b(PyNode::Attribute { value: b(PyNode::Name) }),
        args: vec![s("ls")],
        keywords: vec![],
    };
    let f = PyNode::FunctionDef {
        is_async: false,
        name: "f".to_string(),
        defaults: vec![],
        args: b(args),
        body: vec![PyNode::Expr { value: b(s("doc")) }, PyNode::Expr { value: b(call) }],
        decorators: vec![],
        return_annotation: None,
        type_params: None,
    };
    let c = PyNode::ClassDef { name: "C".to_string(), bases: vec![], keywords: vec![], body: vec![f], decorators: vec![], type_params: None };
    let imp = PyNode::Import { imported: vec![ImportName { name: "os".to_string(), asname: None }], names: vec![PyNode::Alias] };
    PyNode::Module { body: vec![imp, c] }
}

fn kinds(t: &WalkTree, out: &mut Vec<&'static str>) {
    out.push(match &t.facts {
        NodeFacts::ClassDef { .. } => "ClassDef",
        NodeFacts::FunctionDef { .. } => "FunctionDef",
        NodeFacts::AsyncFunctionDef { .. } => "AsyncFunctionDef",
        NodeFacts::Call(_) => "Call",
        NodeFacts::Import(_) => "Import",
        NodeFacts::ImportFrom { .. } => "ImportFrom",
        NodeFacts::Str { in_expr_statement: true, .. } => "Docstring",
        NodeFacts::Str { .. } => "Str",
        NodeFacts::Bytes { .. } => "Bytes",
        NodeFacts::Assert => "Assert",
        NodeFacts::ExceptHandler => "ExceptHandler",
        NodeFacts::Other => "Other",
    });
    for c in &t.children {
        kinds(c, out);
    }
}

#[test]
fn walk_tree_follows_cpython_order() {
    let m = module();
    let t = walk_tree(VNode::Node(&m), false);
    let mut out = vec![];
    kinds(&t, &mut out);
    assert_eq!(
        out,
        vec!["Other", "Import", "Other", "ClassDef", "FunctionDef", "Other", "Other", "Docstring", "Other", "Call", "Other", "Other", "Str"]
    );
}

#[test]
fn walked_tree_feeds_the_walk() {
    let m = module();
    let t = walk_tree(VNode::Node(&m), false);
    let config = BanditConfig::default();
    let profile = config.default_profile();
    let tests = TestSet::new(&config, &profile);
    let (mut st, _) = WalkState::for_module("m.py", Ok("m".to_string()));
    let visits = st.walk(t.children, &tests);
    let call = visits.iter().find(|v| v.kind == NodeKind::Call).unwrap();
    assert_eq!(call.qualname.as_deref(), Some("os.system"));
    let f = visits.iter().find(|v| v.kind == NodeKind::FunctionDef).unwrap();
    assert_eq!(f.qualname.as_deref(), Some("m.C.f"));
    let strs: Vec<bool> = visits.iter().filter(|v| v.kind == NodeKind::Str).map(|v| v.run).collect();
    assert_eq!(strs.len(), 2);
    assert!(!strs[0]);
    assert_eq!(st.namespace, "m");
}

#[test]
fn elif_chain_is_nested() {
    let node = PyNode::If {
        test: b(PyNode::Name),
        body: vec![PyNode::Pass],
        clauses: vec![
            ElifElse { test: Some(PyNode::Name), body: vec![PyNode::Assert { test: b(PyNode::Name), msg: None }] },
            ElifElse { test: None, body: vec![PyNode::Pass] },
        ],
    };
    let t = walk_tree(VNode::Node(&node), false);
    assert_eq!(t.children.len(), 3);
    assert_eq!(t.children[2].children.len(), 3);
    assert!(matches!(t.children[2].children[1].facts, NodeFacts::Assert));
}

#[test]
fn facts_copy_the_node() {
    let call = PyNode::Call { call: system_call(), func: b(PyNode::Name), args: vec![], keywords: vec![] };
    match facts_of(VNode::Node(&call), false) {
        NodeFacts::Call(c) => {
            assert_eq!(c.args.len(), 1);
            assert!(matches!(&c.args[0], PyExpr::Str(x) if x == "ls"));
        }
        _ => panic!("not a call"),
    }
    let e = PyExpr::List(vec![PyExpr::Int("3".to_string()), PyExpr::Name("x".to_string())]);
    assert!(matches!(copy_expr(&e), PyExpr::List(v) if v.len() == 2));
}
