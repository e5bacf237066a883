use banditrs::engine::config::{ConfigValue, FloatValue};
use banditrs::engine::config_debug::{push_debug, push_float_debug, push_str_debug};

fn float(repr: &str) -> ConfigValue {
    ConfigValue::Float(FloatValue { repr: repr.to_string(), nonzero: true })
}

#[test]
fn list_text_matches_debug_format() {
    let v = ConfigValue::List(vec![
        ConfigValue::Str("a'b\"c\\d\n".to_string()),
        ConfigValue::Int(-3),
        float("1e+16"),
        ConfigValue::Null,
        ConfigValue::Bool(true),
    ]);
    assert_eq!(
        v.py_str(),
        "List([Str(\"a'b\\\"c\\\\d\\n\"), Int(-3), Float(1e16), Null, Bool(true)])"
    );
}

#[test]
fn mapping_text_matches_debug_format() {
    let v = ConfigValue::Mapping(vec![
        ("k".to_string(), ConfigValue::List(vec![])),
        ("j".to_string(), ConfigValue::Mapping(vec![])),
        ("f".to_string(), float("1.5")),
    ]);
    assert_eq!(v.py_str(), "Map({\"k\": List([]), \"j\": Map({}), \"f\": Float(1.5)})");
}

#[test]
fn float_text_drops_exponent_sign_and_zeros() {
    let cases = [("1e-05", "1e-5"), ("nan", "NaN"), ("-1.5e+300", "-1.5e300"), ("inf", "inf"), ("0.0001", "0.0001"), ("2.5e-100", "2.5e-100")];
    for (repr, want) in cases {
        let mut s = String::new();
        push_float_debug(&mut s, repr);
        assert_eq!(s, want);
    }
}

#[test]
fn string_text_escapes_like_debug() {
    for t in ["plain", "tab\there", "quote\"s", "it's", "nul\0", "é ü", "\u{1}"] {
        let mut s = String::from("x");
        push_str_debug(&mut s, t);
        assert_eq!(s, format!("x{:?}", t));
    }
    let mut s = String::new();
    push_debug(&mut s, &ConfigValue::Str("q".to_string()));
    assert_eq!(s, "Str(\"q\")");
}
