use banditrs::ast::expr::{arg_value, get_literal_value, keyword_value, PyExpr};
use banditrs::ast::value::{DictRef, PyFloat, PyValue};

fn s(x: &str) -> PyExpr {
    PyExpr::Str(x.to_string())
}

fn int_lit(text: &str) -> PyExpr {
    PyExpr::Int(text.to_string())
}

fn pf(x: f64, repr: &str) -> PyFloat {
    PyFloat { bits: x.to_bits(), repr: repr.to_string() }
}

fn attr(value: PyExpr, a: &str) -> PyExpr {
    PyExpr::Attribute(Box::new(value), a.to_string())
}

fn lit(e: &PyExpr) -> String {
    get_literal_value(e).unwrap().py_repr()
}

#[test]
fn literal_values() {
    assert_eq!(lit(&int_lit("42")), "42");
    assert_eq!(lit(&s("spam")), "'spam'");
    assert_eq!(lit(&PyExpr::Bool(true)), "'True'");
    assert_eq!(lit(&PyExpr::NoneLit), "'None'");
    assert_eq!(lit(&PyExpr::List(vec![int_lit("1"), s("a")])), "[1, 'a']");
    assert_eq!(lit(&PyExpr::Tuple(vec![int_lit("1")])), "(1,)");
    assert_eq!(lit(&PyExpr::SetLit(vec![int_lit("1"), int_lit("2")])), "{1, 2}");
    assert_eq!(lit(&PyExpr::Bytes(b"x".to_vec())), "b'x'");
    assert_eq!(lit(&PyExpr::Name("name".to_string())), "'name'");
    assert_eq!(lit(&attr(PyExpr::Name("a".to_string()), "b")), "None");
    assert_eq!(lit(&PyExpr::Float(pf(1.5, "1.5"))), "1.5");
    assert_eq!(lit(&PyExpr::Float(pf(1e16, "1e+16"))), "1e+16");
    assert_eq!(lit(&PyExpr::Complex(pf(0.0, "0.0"), pf(3.0, "3.0"))), "3j");
    assert_eq!(lit(&s("it's")), "\"it's\"");
    assert_eq!(lit(&s("\u{202e}")), "'\\u202e'");
    assert!(get_literal_value(&PyExpr::SetLit(vec![PyExpr::List(vec![int_lit("1")])])).is_err());
}

#[test]
fn literal_edge_cases() {
    assert!(matches!(get_literal_value(&int_lit("170141183460469231731687303715884105727")), Ok(PyValue::Int(_))));
    match get_literal_value(&int_lit("170141183460469231731687303715884105728")).unwrap() {
        PyValue::BigInt(t) => assert_eq!(t, "170141183460469231731687303715884105728"),
        other => panic!("not a big integer: {other:?}"),
    }
    assert_eq!(lit(&PyExpr::SetLit(vec![int_lit("1"), int_lit("1"), PyExpr::Float(pf(1.0, "1.0"))])), "{1}");
    assert_eq!(lit(&PyExpr::SetLit(vec![PyExpr::Tuple(vec![int_lit("1")])])), "{(1,)}");
    let err = get_literal_value(&PyExpr::Tuple(vec![PyExpr::SetLit(vec![PyExpr::SetLit(vec![])])])).unwrap_err();
    assert_eq!(err.0, "TypeError: unhashable type");
    assert_eq!(lit(&PyExpr::Other), "None");
    assert_eq!(lit(&PyExpr::Ellipsis), "Ellipsis");
    let d = PyExpr::Dict(DictRef { id: 7, items: vec![(Some("Constant".to_string()), "Constant".to_string())] });
    assert!(matches!(get_literal_value(&d), Ok(PyValue::Dict(r)) if r.id == 7 && r.items.len() == 1));
}

#[test]
fn argument_values() {
    let a = attr(PyExpr::Name("ssl".to_string()), "PROTOCOL_SSLv2");
    assert_eq!(keyword_value(&a).unwrap().py_repr(), "'PROTOCOL_SSLv2'");
    assert_eq!(arg_value(&a).unwrap().py_repr(), "'PROTOCOL_SSLv2'");
    let empty = attr(PyExpr::Other, "");
    assert_eq!(keyword_value(&empty).unwrap().py_repr(), "''");
    assert_eq!(arg_value(&empty).unwrap().py_repr(), "None");
    assert_eq!(keyword_value(&int_lit("5")).unwrap().py_repr(), "5");
    assert_eq!(arg_value(&PyExpr::Bool(false)).unwrap().py_repr(), "'False'");
}
