use banditrs::ast::literal::PyErr;
use banditrs::constants::Rank;
use banditrs::engine::issue::{Cwe, IssueDraft, LineRange};
use banditrs::engine::metrics::FileMetrics;
use banditrs::engine::nosec::NosecLines;
use banditrs::engine::tester::{combined_nosec, NodeInfo, TestOutcome, Tester};
use banditrs::log::Level;

fn outcome(name: &str, id: &str, result: Result<Option<IssueDraft>, PyErr>) -> TestOutcome {
    TestOutcome { name: name.to_string(), default_id: id.to_string(), result }
}

fn tester() -> Tester {
    let comments = vec![(3u32, "# nosec B101".to_string()), (5u32, "# nosec".to_string())];
    let (nosec, warnings) = NosecLines::from_comments(&comments);
    assert!(warnings.is_empty());
    Tester { nosec, metrics: FileMetrics::blank(), results: Vec::new(), source: None }
}

fn node(line: u32) -> NodeInfo {
    NodeInfo {
        filename: "f.py".to_string(),
        lineno: Some(line),
        col_offset: Some(4),
        end_col_offset: 9,
        linerange: LineRange::single(line),
    }
}

#[test]
fn nosec_comments_silence_the_named_tests() {
    let mut t = tester();
    let outcomes = vec![
        outcome("assert_used", "B101", Ok(Some(IssueDraft::new(Rank::Low, Rank::High, Cwe(703), "assert")))),
        outcome("exec_used", "B102", Ok(Some(IssueDraft::new(Rank::Medium, Rank::High, Cwe(78), "exec")))),
        outcome("broken", "B103", Err(PyErr("boom".to_string()))),
        outcome("assert_again", "B101", Ok(None)),
    ];
    let (scores, logs) = t.run_tests(&node(3), outcomes);
    assert_eq!(t.results.len(), 1);
    let i = &t.results[0];
    assert_eq!(i.test, "exec_used");
    assert_eq!(i.test_id, "B102");
    assert_eq!(i.fname, "f.py");
    assert_eq!(i.lineno, 3);
    assert_eq!(i.col_offset, 4);
    assert_eq!(t.metrics.skipped_tests, 1);
    assert_eq!(t.metrics.nosec, 0);
    assert_eq!(scores.severity, [0, 0, 5, 0]);
    assert_eq!(scores.confidence, [0, 0, 0, 10]);
    assert_eq!(logs.len(), 2);
    assert_eq!(logs[0].0, Level::Error);
    assert_eq!(logs[0].1, "Bandit internal error running: broken on file f.py at line 3: boom");
    assert_eq!(logs[1].0, Level::Warning);
    assert_eq!(logs[1].1, "nosec encountered (B101), but no failed test on file f.py:3");
}

#[test]
fn blanket_nosec_counts_every_silenced_issue() {
    let mut t = tester();
    let outcomes = vec![
        outcome("a", "B101", Ok(Some(IssueDraft::new(Rank::Low, Rank::Low, Cwe(703), "a")))),
        outcome("b", "B102", Ok(Some(IssueDraft::new(Rank::High, Rank::High, Cwe(78), "b")))),
    ];
    let (scores, logs) = t.run_tests(&node(5), outcomes);
    assert!(t.results.is_empty());
    assert_eq!(t.metrics.nosec, 2);
    assert_eq!(t.metrics.skipped_tests, 0);
    assert_eq!(scores.severity, [0, 0, 0, 0]);
    assert!(logs.is_empty());
    let (scores, _) = t.run_tests(
        &node(7),
        vec![outcome("c", "B101", Ok(Some(IssueDraft::new(Rank::High, Rank::Medium, Cwe(78), "c"))))],
    );
    assert_eq!(t.results.len(), 1);
    assert_eq!(scores.severity, [0, 0, 0, 10]);
    assert_eq!(scores.confidence, [0, 0, 5, 0]);
}

#[test]
fn nosec_of_a_line_and_of_a_range_unite() {
    let comments = vec![(3u32, "# nosec B101".to_string()), (4u32, "# nosec B102".to_string())];
    let (n, _) = NosecLines::from_comments(&comments);
    let both = combined_nosec(&n, Some(4), LineRange::new(3, 4)).unwrap();
    assert_eq!(both.len(), 2);
    assert!(both.contains("B101") && both.contains("B102"));
    assert!(combined_nosec(&n, Some(9), LineRange::single(9)).is_none());
    let first = combined_nosec(&n, None, LineRange::new(3, 4)).unwrap();
    assert!(first.len() == 1 && first.contains("B101"));
    let later = vec![(5u32, "# nosec B101".to_string()), (5u32, "# nosec".to_string())];
    let (n, _) = NosecLines::from_comments(&later);
    assert!(n.get(5).unwrap().is_empty());
    assert!(n.get(6).is_none());
    let odd = vec![(1u32, "# nosec B101, bogus".to_string()), (2u32, "# nosec nothing".to_string())];
    let (_, unknown) = NosecLines::from_comments(&odd);
    assert_eq!(unknown, vec!["bogus".to_string(), "nothing".to_string()]);
}
