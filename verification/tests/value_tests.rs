use banditrs::ast::value::{node_repr, set_add, set_literal, DictRef, PyFloat, PyValue};

fn float(x: f64, repr: &str) -> PyValue {
    PyValue::Float(PyFloat { bits: x.to_bits(), repr: repr.to_string() })
}

fn pf(x: f64, repr: &str) -> PyFloat {
    PyFloat { bits: x.to_bits(), repr: repr.to_string() }
}

#[test]
fn equality_and_truth() {
    assert!(PyValue::Int(0).py_eq(&float(0.0, "0.0")));
    assert!(!PyValue::Int(0).py_eq(&PyValue::str("0")));
    assert!(PyValue::List(vec![PyValue::Int(1)]).py_eq(&PyValue::List(vec![float(1.0, "1.0")])));
    assert!(!PyValue::List(vec![]).py_eq(&PyValue::Tuple(vec![])));
    assert!(!PyValue::NoneValue.truthy());
    assert!(!PyValue::str("").truthy());
    assert!(PyValue::str("False").truthy());
    assert!(!PyValue::Int(0).truthy());
}

#[test]
fn reprs() {
    assert_eq!(PyValue::NoneValue.py_repr(), "None");
    assert_eq!(PyValue::str("spam").py_repr(), "'spam'");
    assert_eq!(PyValue::str("it's").py_repr(), "\"it's\"");
    assert_eq!(PyValue::Bytes(b"x".to_vec()).py_repr(), "b'x'");
    assert_eq!(PyValue::Int(-170141183460469231731687303715884105728).py_repr(), "-170141183460469231731687303715884105728");
    assert_eq!(PyValue::BigInt("1".repeat(50)).py_repr(), "1".repeat(50));
    assert_eq!(float(1e16, "1e+16").py_repr(), "1e+16");
    assert_eq!(PyValue::List(vec![PyValue::Int(1), PyValue::str("a")]).py_repr(), "[1, 'a']");
    assert_eq!(PyValue::Tuple(vec![PyValue::Int(1)]).py_repr(), "(1,)");
    assert_eq!(PyValue::Tuple(vec![]).py_repr(), "()");
    assert_eq!(PyValue::SetValue(vec![]).py_repr(), "set()");
    assert_eq!(PyValue::SetValue(vec![PyValue::Int(1), PyValue::Int(2)]).py_repr(), "{1, 2}");
    assert_eq!(PyValue::Ellipsis.py_repr(), "Ellipsis");
    assert_eq!(PyValue::Complex(pf(0.0, "0.0"), pf(2.0, "2.0")).py_repr(), "2j");
    assert_eq!(PyValue::Complex(pf(1.0, "1.0"), pf(-2.5, "-2.5")).py_repr(), "(1-2.5j)");
    assert_eq!(PyValue::Complex(pf(-0.0, "-0.0"), pf(1.0, "1.0")).py_repr(), "(-0+1j)");
    let d = DictRef { id: 7, items: vec![(Some("Name".to_string()), "Constant".to_string()), (None, "Name".to_string())] };
    assert_eq!(
        PyValue::Dict(d).py_repr(),
        "{<ast.Name object at 0x0>: <ast.Constant object at 0x0>, None: <ast.Name object at 0x0>}"
    );
    assert_eq!(node_repr("Call"), "<ast.Call object at 0x0>");
    assert_eq!(PyValue::str("x").py_str(), "x");
    assert_eq!(PyValue::Int(3).py_str(), "3");
}

#[test]
fn numeric_equality() {
    assert!(float(0.0, "0.0").py_eq(&float(-0.0, "-0.0")));
    assert!(!float(f64::NAN, "nan").py_eq(&float(f64::NAN, "nan")));
    assert!(PyValue::Int(3).py_eq(&float(3.0, "3.0")));
    assert!(!PyValue::Int(3).py_eq(&float(3.5, "3.5")));
    let big: i128 = (1i128 << 53) + 1;
    assert!(PyValue::Int(big).py_eq(&float(big as f64, "9007199254740992.0")));
    assert!(PyValue::Int(-(1i128 << 100)).py_eq(&float(-(2f64.powi(100)), "-1.2676506002282294e+30")));
    assert!(PyValue::Complex(pf(2.0, "2.0"), pf(0.0, "0.0")).py_eq(&PyValue::Int(2)));
    assert!(PyValue::Int(2).py_eq(&PyValue::Complex(pf(2.0, "2.0"), pf(-0.0, "-0.0"))));
    assert!(!PyValue::Int(2).py_eq(&PyValue::Complex(pf(2.0, "2.0"), pf(1.0, "1.0"))));
    let d = |id: u64| PyValue::Dict(DictRef { id, items: vec![] });
    assert!(d(1).py_eq(&d(1)));
    assert!(!d(1).py_eq(&d(2)));
    assert!(PyValue::SetValue(vec![PyValue::Int(1), PyValue::Int(2)])
        .py_eq(&PyValue::SetValue(vec![PyValue::Int(2), PyValue::Int(1)])));
}

#[test]
fn truthiness_of_numbers_and_containers() {
    assert!(!float(0.0, "0.0").truthy());
    assert!(!float(-0.0, "-0.0").truthy());
    assert!(float(f64::NAN, "nan").truthy());
    assert!(!PyValue::Complex(pf(0.0, "0.0"), pf(0.0, "0.0")).truthy());
    assert!(PyValue::Complex(pf(0.0, "0.0"), pf(1.0, "1.0")).truthy());
    assert!(PyValue::Ellipsis.truthy());
    assert!(!PyValue::Tuple(vec![]).truthy());
    assert!(PyValue::Dict(DictRef { id: 0, items: vec![(None, "Name".to_string())] }).truthy());
}

#[test]
fn set_literals() {
    let v = set_literal(vec![PyValue::Int(1), float(1.0, "1.0"), PyValue::Int(2)]).unwrap();
    assert_eq!(v.py_repr(), "{1, 2}");
    let e = set_literal(vec![PyValue::Int(1), PyValue::List(vec![PyValue::Int(1)])]);
    assert_eq!(e.unwrap_err().0, "TypeError: unhashable type");
    assert!(set_literal(vec![PyValue::Tuple(vec![PyValue::List(vec![])])]).is_err());
    assert!(set_literal(vec![PyValue::Tuple(vec![PyValue::Int(1)])]).is_ok());
    let mut items = vec![PyValue::str("a")];
    assert!(set_add(&mut items, PyValue::str("a")).is_ok());
    assert_eq!(items.len(), 1);
    assert!(!PyValue::SetValue(vec![]).is_hashable());
}
