use banditrs::ast::PyCompat;
use banditrs::constants::Rank;
use banditrs::engine::config::BanditConfig;
use banditrs::engine::issue::{Cwe, Issue};
use banditrs::engine::json::{JsonNumber, JsonValue};
use banditrs::engine::manager::{AggType, Manager};
use banditrs::engine::test_set::TestSet;
use banditrs::formatters::json::report;
use banditrs::formatters::output_results;
use banditrs::pycompat::json_dump::dumps;
use banditrs::pycompat::keyed_sort::sort_by_key;

fn manager(agg: AggType) -> Manager {
    let config = BanditConfig::default();
    let profile = config.default_profile();
    let tests = TestSet::new(&config, &profile);
    Manager::new(config, agg, tests, PyCompat::Py312)
}

const TOTALS: &str = "    \"_totals\": {\n      \"CONFIDENCE.HIGH\": 0,\n      \"CONFIDENCE.LOW\": 0,\n      \"CONFIDENCE.MEDIUM\": 0,\n      \"CONFIDENCE.UNDEFINED\": 0,\n      \"SEVERITY.HIGH\": 0,\n      \"SEVERITY.LOW\": 0,\n      \"SEVERITY.MEDIUM\": 0,\n      \"SEVERITY.UNDEFINED\": 0,\n      \"loc\": 0,\n      \"nosec\": 0,\n      \"skipped_tests\": 0\n    }\n";

#[test]
fn dumps_sorts_keys_indents_and_escapes() {
    let v = JsonValue::Object(vec![
        ("b".to_string(), JsonValue::Number(JsonNumber::PosInt(1))),
        (
            "a".to_string(),
            JsonValue::Array(vec![
                JsonValue::Str("\u{e9}\u{1F600}\"\n".to_string()),
                JsonValue::Null,
                JsonValue::Bool(true),
                JsonValue::Number(JsonNumber::NegInt(-7)),
            ]),
        ),
        ("c".to_string(), JsonValue::Object(vec![])),
    ]);
    assert_eq!(
        dumps(v).unwrap(),
        "{\n  \"a\": [\n    \"\\u00e9\\ud83d\\ude00\\\"\\n\",\n    null,\n    true,\n    -7\n  ],\n  \"b\": 1,\n  \"c\": {}\n}"
    );
    assert!(dumps(JsonValue::Array(vec![JsonValue::Number(JsonNumber::Float(0))])).is_none());
}

#[test]
fn keyed_sort_is_stable() {
    let v = vec![("b".to_string(), 1), ("a".to_string(), 2), ("b".to_string(), 3), ("a".to_string(), 4)];
    let r: Vec<i32> = sort_by_key(v).into_iter().map(|x| x.1).collect();
    assert_eq!(r, vec![2, 4, 1, 3]);
}

#[test]
fn json_report_without_results() {
    let mut m = manager(AggType::File);
    m.skipped.push(("skip.py".to_string(), "bad".to_string()));
    let text = report(&m, Rank::Undefined, Rank::Undefined, -1, "2024-01-01T00:00:00Z");
    let want = format!(
        "{{\n  \"errors\": [\n    {{\n      \"filename\": \"skip.py\",\n      \"reason\": \"bad\"\n    }}\n  ],\n  \"generated_at\": \"2024-01-01T00:00:00Z\",\n  \"metrics\": {{\n{TOTALS}  }},\n  \"results\": []\n}}"
    );
    assert_eq!(text, want);
}

#[test]
fn json_report_sorts_results_by_file() {
    let mut m = manager(AggType::File);
    m.results.push(Issue::new(Rank::Low, Rank::High, Cwe(78), "second", "b.py", "t2", "B1", 3));
    m.results.push(Issue::new(Rank::Low, Rank::High, Cwe::notset(), "first", "a.py", "t1", "B1", 2));
    let r = output_results(&m, -1, Rank::Undefined, Rank::Undefined, Some("out.json"), "json", "txt", "now", "T");
    assert_eq!(r.format, "json");
    let text = r.text.unwrap();
    let a = text.find("\"filename\": \"a.py\"").unwrap();
    let b = text.find("\"filename\": \"b.py\"").unwrap();
    assert!(a < b);
    assert!(text.contains("\"issue_cwe\": {},"));
    assert!(text.contains("\"issue_cwe\": {\n        \"id\": 78,\n        \"link\": \"https://cwe.mitre.org/data/definitions/78.html\"\n      },"));
    assert!(text.contains("\"more_info\": \"https://bandit.readthedocs.io/en/latest/\","));
    assert!(!text.ends_with('\n'));
    let (logger, msg) = r.notice.unwrap();
    assert_eq!(logger, "json");
    assert_eq!(msg, "JSON output written to file: out.json");
}

#[test]
fn json_report_sorts_results_by_test_when_aggregating_by_vulnerability() {
    let mut m = manager(AggType::Vuln);
    m.results.push(Issue::new(Rank::Low, Rank::High, Cwe::notset(), "x", "a.py", "zeta", "B1", 3));
    m.results.push(Issue::new(Rank::Low, Rank::High, Cwe::notset(), "y", "b.py", "alpha", "B1", 2));
    let text = report(&m, Rank::Undefined, Rank::Undefined, -1, "T");
    assert!(text.find("\"test_name\": \"alpha\"").unwrap() < text.find("\"test_name\": \"zeta\"").unwrap());
}
