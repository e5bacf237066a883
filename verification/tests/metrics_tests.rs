use banditrs::constants::Rank;
use banditrs::engine::json::{get_entry, JsonNumber, JsonValue};
use banditrs::engine::metrics::{FileMetrics, Metrics, Scores};

fn field<'a>(v: &'a JsonValue, key: &str) -> Option<&'a JsonValue> {
    match v {
        JsonValue::Object(e) => get_entry(e, key),
        _ => None,
    }
}

fn keys(v: &JsonValue) -> Vec<String> {
    match v {
        JsonValue::Object(e) => e.iter().map(|p| p.0.clone()).collect(),
        _ => Vec::new(),
    }
}

#[test]
fn count_locs_skips_blank_and_comments() {
    let mut fm = FileMetrics::default();
    fm.count_locs(b"import os\n\n   # comment\n  x = 1 # trailing\n\t\n");
    assert_eq!(fm.loc, 2);
}

#[test]
fn count_locs_handles_carriage_returns() {
    let mut fm = FileMetrics::default();
    fm.count_locs(b"a = 1\r\nb = 2\r#c\rd");
    assert_eq!(fm.loc, 3);
    fm.count_locs(b"");
    assert_eq!(fm.loc, 3);
}

#[test]
fn scores_and_totals() {
    let mut s = Scores::default();
    s.note(Rank::Low, Rank::High);
    s.note(Rank::Low, Rank::High);
    s.note(Rank::High, Rank::Medium);
    assert_eq!(s.severity, [0, 6, 0, 10]);
    assert_eq!(s.issue_counts(), [[0, 2, 0, 1], [0, 0, 1, 2]]);
    let mut m = Metrics::new();
    let fm = m.begin("a.py");
    fm.loc = 3;
    fm.nosec = 1;
    fm.count_issues(&s);
    m.begin("b.py").loc = 4;
    m.aggregate();
    assert_eq!(m.totals.loc, 7);
    assert_eq!(m.totals.nosec, 1);
    assert_eq!(m.totals.get("SEVERITY.LOW"), Some(2));
    assert_eq!(m.totals.get("CONFIDENCE.HIGH"), Some(2));
    assert_eq!(m.files.get("b.py").unwrap().get("SEVERITY.LOW"), None);
    assert_eq!(m.files.get("a.py").unwrap().get("SEVERITY.LOW"), Some(2));
    let j = m.to_json();
    let k = keys(field(&j, "_totals").unwrap());
    assert_eq!(k[3], "SEVERITY.UNDEFINED");
    assert_eq!(k[4], "CONFIDENCE.UNDEFINED");
    assert!(field(field(&j, "b.py").unwrap(), "SEVERITY.LOW").is_none());
    assert!(matches!(
        field(field(&j, "a.py").unwrap(), "SEVERITY.LOW"),
        Some(JsonValue::Number(JsonNumber::PosInt(2)))
    ));
}

#[test]
fn metrics_json_layout() {
    let mut m = Metrics::new();
    m.insert("x.py", FileMetrics { loc: 4, nosec: 1, skipped_tests: 0, issues: Some([[1, 2, 3, 4], [5, 6, 7, 8]]) });
    m.aggregate();
    let j = m.to_json();
    assert_eq!(keys(&j), vec!["_totals".to_string(), "x.py".to_string()]);
    let t = field(&j, "_totals").unwrap();
    assert_eq!(
        keys(t),
        vec![
            "loc", "nosec", "skipped_tests", "SEVERITY.UNDEFINED", "CONFIDENCE.UNDEFINED", "SEVERITY.LOW",
            "CONFIDENCE.LOW", "SEVERITY.MEDIUM", "CONFIDENCE.MEDIUM", "SEVERITY.HIGH", "CONFIDENCE.HIGH",
        ]
    );
    let f = field(&j, "x.py").unwrap();
    assert_eq!(keys(f)[3], "SEVERITY.UNDEFINED");
    assert_eq!(keys(f)[4], "SEVERITY.LOW");
    assert!(matches!(field(f, "CONFIDENCE.HIGH"), Some(JsonValue::Number(JsonNumber::PosInt(8)))));
    assert!(matches!(field(t, "loc"), Some(JsonValue::Number(JsonNumber::PosInt(4)))));
    let blank = FileMetrics { loc: 0, nosec: 0, skipped_tests: 0, issues: None };
    assert_eq!(keys(&blank.to_json_file()).len(), 3);
    assert_eq!(keys(&blank.to_json_totals()).len(), 11);
}

#[test]
fn metric_labels() {
    let fm = FileMetrics { loc: 5, nosec: 2, skipped_tests: 1, issues: Some([[1, 2, 3, 4], [5, 6, 7, 8]]) };
    assert_eq!(fm.get("loc"), Some(5));
    assert_eq!(fm.get("nosec"), Some(2));
    assert_eq!(fm.get("skipped_tests"), Some(1));
    assert_eq!(fm.get("CONFIDENCE.UNDEFINED"), Some(5));
    assert_eq!(fm.get("SEVERITY.HIGH"), Some(4));
    assert_eq!(fm.get("SEVERITY.high"), None);
    assert_eq!(fm.get("OTHER.HIGH"), None);
    assert_eq!(fm.get("nothing"), None);
}

#[test]
fn totals_and_add() {
    let mut a = Scores::default();
    a.note(Rank::Medium, Rank::Low);
    let mut b = Scores::default();
    b.note(Rank::Medium, Rank::Undefined);
    a.add(&b);
    assert_eq!(a.severity, [0, 0, 10, 0]);
    assert_eq!(a.confidence, [1, 3, 0, 0]);
    assert_eq!(a.severity_total(), 10);
    assert_eq!(a.confidence_total(), 4);
    let mut m = Metrics::new();
    m.insert("a.py", FileMetrics { loc: 1, nosec: 0, skipped_tests: 2, issues: None });
    m.insert("a.py", FileMetrics { loc: 9, nosec: 0, skipped_tests: 0, issues: None });
    m.aggregate();
    assert_eq!(m.files.len(), 1);
    assert_eq!(m.totals.loc, 9);
    assert_eq!(m.totals.skipped_tests, 0);
}
