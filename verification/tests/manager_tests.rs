use banditrs::ast::PyCompat;
use banditrs::constants::Rank;
use banditrs::engine::config::BanditConfig;
use banditrs::engine::issue::{Cwe, Issue};
use banditrs::engine::json::{JsonNumber, JsonValue};
use banditrs::engine::manager::{compare_baseline_results, find_candidate_matches, AggType, IssueList, Manager};
use banditrs::engine::test_set::TestSet;

fn issue(text: &str) -> Issue {
    Issue::new(Rank::Low, Rank::Low, Cwe::notset(), text, "a.py", "t", "B1", 1)
}

fn manager() -> Manager {
    let config = BanditConfig::default();
    let profile = config.default_profile();
    let tests = TestSet::new(&config, &profile);
    Manager::new(config, AggType::File, tests, PyCompat::Py312)
}

fn s(x: &str) -> JsonValue {
    JsonValue::Str(x.to_string())
}

fn baseline_entry(text: &str) -> JsonValue {
    let e: Vec<(&str, JsonValue)> = vec![
        ("code", s("x")),
        ("filename", s("a.py")),
        ("issue_severity", s("LOW")),
        ("issue_cwe", JsonValue::Object(vec![])),
        ("issue_confidence", s("LOW")),
        ("issue_text", s(text)),
        ("test_name", s("t")),
        ("test_id", s("B1")),
        ("line_number", JsonValue::Number(JsonNumber::PosInt(1))),
        ("line_range", JsonValue::Array(vec![])),
    ];
    JsonValue::Object(e.into_iter().map(|(k, v)| (k.to_string(), v)).collect())
}

#[test]
fn baseline_helpers() {
    let a = issue("a");
    let b = issue("b");
    assert_eq!(compare_baseline_results(&[&a], &[&a, &b]).len(), 1);
    assert!(compare_baseline_results(&[&a, &b], &[&a, &b]).is_empty());
    assert!(compare_baseline_results(&[&a, &b], &[&a]).is_empty());
    let m = find_candidate_matches(&[&a], &[&a, &b]);
    assert_eq!(m.len(), 1);
    assert_eq!(m[0].1.len(), 1);
    let a2 = issue("a");
    let m = find_candidate_matches(&[&a], &[&a, &a2]);
    assert_eq!(m[0].1.len(), 2);
}

#[test]
fn populated_baseline_filters_known_issues() {
    let mut m = manager();
    m.results.push(issue("old"));
    m.results.push(issue("new"));
    let doc = JsonValue::Object(vec![(
        "results".to_string(),
        JsonValue::Array(vec![baseline_entry("old")]),
    )]);
    assert!(m.populate_baseline(Ok(doc)).is_none());
    assert_eq!(m.baseline.len(), 1);
    assert_eq!(m.results_count(Rank::Undefined, Rank::Undefined), 1);
    match m.get_issue_list(Rank::Undefined, Rank::Undefined) {
        IssueList::Baseline(v) => {
            assert_eq!(v.len(), 1);
            assert_eq!(v[0].0.text, "new");
            assert_eq!(v[0].1.len(), 1);
        }
        IssueList::Plain(_) => panic!("a baseline was loaded"),
    }
}

#[test]
fn baseline_load_errors_are_reported() {
    let mut m = manager();
    let w = m.populate_baseline(Err("expected value at line 1 column 1".to_string()));
    assert_eq!(w.unwrap(), "Failed to load baseline data: expected value at line 1 column 1");
    assert!(m.baseline.is_empty());
    let w = m.populate_baseline(Ok(JsonValue::Object(vec![])));
    assert_eq!(w.unwrap(), "Failed to load baseline data: 'results'");
}

#[test]
fn plain_results_without_baseline() {
    let mut m = manager();
    m.results.push(issue("x"));
    let mut hi = issue("y");
    hi.severity = Rank::High;
    m.results.push(hi);
    assert_eq!(m.results_count(Rank::Undefined, Rank::Undefined), 2);
    assert_eq!(m.results_count(Rank::High, Rank::Undefined), 1);
    assert!(matches!(m.get_issue_list(Rank::Low, Rank::Low), IssueList::Plain(v) if v.len() == 2));
}
