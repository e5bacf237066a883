use banditrs::constants::Rank;
use banditrs::engine::issue::{Cwe, Issue, LineRange};
use banditrs::engine::json::{
    baseline_from_json, cwe_from_dict, from_dict, get_entry, trim, JsonNumber, JsonValue,
};

fn issue() -> Issue {
    let mut i = Issue::new(
        Rank::Medium,
        Rank::Medium,
        Cwe(605),
        "Test issue",
        "code.py",
        "bandit_plugin",
        "B999",
        1,
    );
    i.col_offset = 8;
    i.end_col_offset = 16;
    i
}

fn field<'a>(v: &'a JsonValue, key: &str) -> Option<&'a JsonValue> {
    match v {
        JsonValue::Object(e) => get_entry(e, key),
        _ => None,
    }
}

fn is_str(v: Option<&JsonValue>, s: &str) -> bool {
    matches!(v, Some(JsonValue::Str(t)) if t == s)
}

fn is_uint(v: Option<&JsonValue>, n: u64) -> bool {
    matches!(v, Some(JsonValue::Number(JsonNumber::PosInt(m))) if *m == n)
}

fn s(x: &str) -> JsonValue {
    JsonValue::Str(x.to_string())
}

fn obj(entries: Vec<(&str, JsonValue)>) -> JsonValue {
    JsonValue::Object(entries.into_iter().map(|(k, v)| (k.to_string(), v)).collect())
}

#[test]
fn issue_as_dict() {
    let d = issue().as_dict(false, 3);
    assert!(is_str(field(&d, "filename"), "code.py"));
    assert!(is_str(field(&d, "test_name"), "bandit_plugin"));
    assert!(is_str(field(&d, "test_id"), "B999"));
    assert!(is_str(field(&d, "issue_severity"), "MEDIUM"));
    assert!(is_uint(field(field(&d, "issue_cwe").unwrap(), "id"), 605));
    assert!(is_str(
        field(field(&d, "issue_cwe").unwrap(), "link"),
        "https://cwe.mitre.org/data/definitions/605.html"
    ));
    assert!(is_str(field(&d, "issue_confidence"), "MEDIUM"));
    assert!(is_str(field(&d, "issue_text"), "Test issue"));
    assert!(is_uint(field(&d, "line_number"), 1));
    assert!(matches!(field(&d, "line_range"), Some(JsonValue::Array(a)) if a.is_empty()));
    assert!(is_uint(field(&d, "col_offset"), 8));
    assert!(is_uint(field(&d, "end_col_offset"), 16));
    assert!(field(&d, "code").is_none());
    assert!(matches!(Cwe::notset().as_dict(), JsonValue::Object(e) if e.is_empty()));
    assert_eq!(Cwe::notset().to_string(), "");
}

#[test]
fn issue_as_dict_with_code() {
    let mut i = issue();
    i.linerange = LineRange::new(1, 3);
    let d = i.as_dict(true, 3);
    assert!(is_str(field(&d, "code"), ""));
    match field(&d, "line_range") {
        Some(JsonValue::Array(a)) => {
            assert_eq!(a.len(), 3);
            assert!(matches!(a[2], JsonValue::Number(JsonNumber::PosInt(3))));
        }
        _ => panic!("line_range is not a list"),
    }
}

#[test]
fn baseline_roundtrip() {
    let data = obj(vec![
        ("code", s("x")),
        ("filename", s("f.py")),
        ("issue_severity", s("low")),
        (
            "issue_cwe",
            obj(vec![
                ("id", JsonValue::Number(JsonNumber::PosInt(605))),
                ("link", s("https://cwe.mitre.org/data/definitions/605.html")),
            ]),
        ),
        ("issue_confidence", s("low")),
        ("issue_text", s("t")),
        ("test_name", s("n")),
        ("test_id", s("B1")),
        ("line_number", s("n")),
        ("line_range", s("n-m")),
    ]);
    let b = from_dict(&data).unwrap();
    assert_eq!(b.cwe, Cwe(605));
    assert_eq!(b.severity.as_deref(), Some("low"));
    assert!(from_dict(&obj(vec![("data", s("bad"))])).is_err());
    assert_eq!(cwe_from_dict(&obj(vec![])).unwrap(), Cwe::notset());
    assert_eq!(cwe_from_dict(&obj(vec![("id", s("78"))])).unwrap(), Cwe(78));
}

#[test]
fn baseline_errors_name_the_first_problem() {
    assert_eq!(from_dict(&s("x")).unwrap_err().0, "issue is not a dictionary");
    assert_eq!(from_dict(&obj(vec![("data", s("bad"))])).unwrap_err().0, "'code'");
    let bad_cwe = obj(vec![
        ("code", s("x")),
        ("filename", s("f.py")),
        ("issue_severity", s("low")),
        ("issue_cwe", obj(vec![("id", s("seven"))])),
    ]);
    assert_eq!(
        from_dict(&bad_cwe).unwrap_err().0,
        "invalid literal for int() with base 10: 'seven'"
    );
    let no_conf = obj(vec![
        ("code", s("x")),
        ("filename", s("f.py")),
        ("issue_severity", s("low")),
        ("issue_cwe", obj(vec![])),
    ]);
    assert_eq!(from_dict(&no_conf).unwrap_err().0, "'issue_confidence'");
    assert_eq!(cwe_from_dict(&s("x")).unwrap_err().0, "argument of type is not iterable");
    assert_eq!(
        cwe_from_dict(&obj(vec![("id", JsonValue::Null)])).unwrap_err().0,
        "int() argument must be a string or a number"
    );
}

#[test]
fn cwe_numbers_and_texts() {
    assert_eq!(cwe_from_dict(&obj(vec![("id", s(" 78\n"))])).unwrap(), Cwe(78));
    assert_eq!(cwe_from_dict(&obj(vec![("id", JsonValue::Bool(true))])).unwrap(), Cwe(1));
    assert_eq!(
        cwe_from_dict(&obj(vec![("id", JsonValue::Number(JsonNumber::NegInt(-4)))])).unwrap(),
        Cwe(0)
    );
    let f = |x: f64| obj(vec![("id", JsonValue::Number(JsonNumber::Float(x.to_bits())))]);
    assert_eq!(cwe_from_dict(&f(78.9)).unwrap(), Cwe(78));
    assert_eq!(cwe_from_dict(&f(-3.5)).unwrap(), Cwe(0));
    assert_eq!(cwe_from_dict(&f(1e12)).unwrap(), Cwe(u32::MAX));
    assert_eq!(cwe_from_dict(&f(f64::NAN)).unwrap(), Cwe(0));
    assert_eq!(
        cwe_from_dict(&obj(vec![("id", JsonValue::Number(JsonNumber::PosInt(4294967296 + 7)))]))
            .unwrap(),
        Cwe(7)
    );
    assert_eq!(trim("\u{3000} a b\t"), "a b");
}

#[test]
fn baseline_documents() {
    assert_eq!(baseline_from_json(&obj(vec![])).unwrap_err(), "'results'");
    assert_eq!(baseline_from_json(&obj(vec![("results", s("x"))])).unwrap_err(), "results is not a list");
    let doc = obj(vec![("results", JsonValue::Array(vec![]))]);
    assert_eq!(baseline_from_json(&doc).unwrap().len(), 0);
    let doc = obj(vec![("results", JsonValue::Array(vec![s("x")]))]);
    assert_eq!(baseline_from_json(&doc).unwrap_err(), "issue is not a dictionary");
}

#[test]
fn written_issue_reloads_as_baseline() {
    let mut i = issue();
    i.linerange = LineRange::new(1, 2);
    let d = i.as_dict(true, 3);
    let b = from_dict(&d).unwrap();
    assert!(i.matches_baseline(&b));
    assert_eq!(b.cwe, Cwe(605));
    assert_eq!(b.fname.as_deref(), Some("code.py"));
    let mut other = issue();
    other.text = "Another issue".to_string();
    assert!(!other.matches_baseline(&b));
    let unset = Issue::new(Rank::Low, Rank::High, Cwe::notset(), "t", "f.py", "n", "B1", 4);
    let back = from_dict(&unset.as_dict(true, 3)).unwrap();
    assert!(unset.matches_baseline(&back));
    assert!(from_dict(&unset.as_dict(false, 3)).is_err());
}
