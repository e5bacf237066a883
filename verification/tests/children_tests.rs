use banditrs::ast::children::{children, push_children, Child};
use banditrs::ast::vnode::{NodeKind, VNode};
use banditrs::ast::expr::PyExpr;
use banditrs::engine::context::CallExpr;
use banditrs::ast::tree::{class_name, DictItem, ElifElse, Param, PyNode};

fn names(cs: &[Child]) -> Vec<&'static str> {
    cs.iter().map(|c| c.node.class_name()).collect()
}

fn siblings(cs: &[Child]) -> Vec<Option<&'static str>> {
    cs.iter().map(|c| c.sibling.map(|s| s.class_name())).collect()
}

fn other_call() -> CallExpr {
    CallExpr { func: PyExpr::Other, args: vec![], keywords: vec![] }
}

fn b(n: PyNode) -> Box<PyNode> {
    Box::new(n)
}

#[test]
fn if_with_elif_and_else() {
    let node = PyNode::If {
        test: b(PyNode::Name),
        body: vec![PyNode::Pass],
        clauses: vec![
            ElifElse { test: Some(PyNode::Constant), body: vec![PyNode::Break] },
            ElifElse { test: None, body: vec![PyNode::Continue, PyNode::Pass] },
        ],
    };
    let top = children(VNode::Node(&node));
    assert_eq!(names(&top), vec!["Name", "Pass", "If"]);
    assert!(matches!(top[2].node, VNode::Elif(_, 0)));
    let elif = children(top[2].node);
    assert_eq!(names(&elif), vec!["Constant", "Break", "Continue", "Pass"]);
    assert_eq!(siblings(&elif), vec![None, None, Some("Pass"), None]);
}

#[test]
fn dict_keys_then_values_with_slot_siblings() {
    let node = PyNode::Dict {
        items: vec![
            DictItem { key: Some(PyNode::Constant), value: PyNode::Name },
            DictItem { key: None, value: PyNode::Call { call: other_call(), func: b(PyNode::Name), args: vec![], keywords: vec![] } },
            DictItem { key: Some(PyNode::Name), value: PyNode::Constant },
        ],
    };
    let cs = children(VNode::Node(&node));
    assert_eq!(names(&cs), vec!["Constant", "Name", "Name", "Call", "Constant"]);
    assert_eq!(siblings(&cs), vec![None, None, Some("Call"), Some("Constant"), None]);
}

#[test]
fn arguments_in_cpython_field_order() {
    let arg = || PyNode::Arg { annotation: None };
    let node = PyNode::Arguments {
        posonlyargs: vec![Param { arg: arg(), default: Some(PyNode::Constant) }],
        args: vec![Param { arg: arg(), default: None }, Param { arg: arg(), default: Some(PyNode::Name) }],
        vararg: Some(b(arg())),
        kwonlyargs: vec![Param { arg: arg(), default: None }, Param { arg: arg(), default: Some(PyNode::List { elts: vec![] }) }],
        kwarg: None,
    };
    let cs = children(VNode::Node(&node));
    assert_eq!(names(&cs), vec!["arg", "arg", "arg", "arg", "arg", "arg", "List", "Constant", "Name"]);
    assert_eq!(siblings(&cs)[1], Some("arg"));
    assert_eq!(siblings(&cs)[3], None);
    assert_eq!(siblings(&cs)[7], Some("Name"));
}

#[test]
fn lambda_without_parameters_and_function_def() {
    let node = PyNode::Lambda { args: None, body: b(PyNode::Constant) };
    let cs = children(VNode::Node(&node));
    assert_eq!(names(&cs), vec!["arguments", "Constant"]);
    assert!(children(cs[0].node).is_empty());
    let f = PyNode::FunctionDef {
        is_async: true,
        name: "f".to_string(),
        defaults: vec![],
        args: b(PyNode::Arguments { posonlyargs: vec![], args: vec![], vararg: None, kwonlyargs: vec![], kwarg: None }),
        body: vec![PyNode::Pass, PyNode::Return { value: None }],
        decorators: vec![PyNode::Name],
        return_annotation: Some(b(PyNode::Name)),
        type_params: Some(vec![PyNode::TypeVar { bound: None, default: None }]),
    };
    assert_eq!(class_name(&f), "AsyncFunctionDef");
    let mut out = vec![];
    push_children(VNode::Node(&node), &mut out);
    push_children(VNode::Node(&f), &mut out);
    assert_eq!(names(&out), vec!["arguments", "Constant", "arguments", "Pass", "Return", "Name", "Name", "TypeVar"]);
    assert_eq!(siblings(&out)[3], Some("Return"));
}

#[test]
fn class_names_of_synthetic_nodes() {
    assert_eq!(class_name(&PyNode::JoinedStr { template: true, values: None }), "TemplateStr");
    assert_eq!(class_name(&PyNode::JoinedStr { template: false, values: None }), "JoinedStr");
    let fv = PyNode::FormattedValue { template: true, value: b(PyNode::Name), spec: Some(b(PyNode::FormatSpec { values: vec![PyNode::JoinedConst { value: "j".to_string() }] })) };
    assert_eq!(class_name(&fv), "Interpolation");
    assert_eq!(names(&children(VNode::Node(&fv))), vec!["Name", "JoinedStr"]);
    assert_eq!(class_name(&PyNode::SetDisplay { elts: vec![] }), "Set");
    assert_eq!(class_name(&PyNode::Try { is_star: true, body: vec![], handlers: vec![], orelse: vec![], finalbody: vec![] }), "TryStar");
    assert_eq!(class_name(&PyNode::Expr { value: b(PyNode::Constant) }), "Expr");
    assert_eq!(class_name(&PyNode::IfExp { test: b(PyNode::Name), body: b(PyNode::Name), orelse: b(PyNode::Name) }), "IfExp");
}

#[test]
fn kinds_and_positions_of_visited_nodes() {
    let s = PyNode::StrConst { value: "s".to_string() };
    let by = PyNode::BytesConst { value: vec![1] };
    let c = PyNode::Call { call: other_call(), func: b(PyNode::Name), args: vec![], keywords: vec![] };
    let e = PyNode::Expr { value: b(PyNode::StrConst { value: "s".to_string() }) };
    let m = PyNode::Module { body: vec![] };
    let lam = PyNode::Lambda { args: None, body: b(PyNode::Constant) };
    assert_eq!(VNode::Node(&s).kind(), NodeKind::Str);
    assert_eq!(VNode::Node(&by).kind(), NodeKind::Bytes);
    assert_eq!(VNode::Node(&c).kind(), NodeKind::Call);
    assert_eq!(VNode::Node(&e).kind(), NodeKind::Other);
    assert_eq!(VNode::Node(&PyNode::JoinedConst { value: "j".to_string() }).kind(), NodeKind::Str);
    assert!(VNode::Node(&e).is_expr_stmt());
    assert!(!VNode::Node(&c).is_expr_stmt());
    assert!(VNode::Node(&s).is_str_constant());
    assert!(!VNode::Node(&by).is_str_constant());
    assert!(!VNode::Node(&m).has_position());
    assert!(!VNode::EmptyArguments(&lam).has_position());
    assert!(VNode::Node(&c).has_position());
    assert_eq!(class_name(&s), "Constant");
}
