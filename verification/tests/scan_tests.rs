use banditrs::engine::metrics::{FileMetrics, Scores};
use banditrs::engine::scan::{file_outcome, ScanStep, SCAN_EXCEPTION, SYNTAX_ERROR};
use banditrs::source::SourceFile;

fn locs(n: u64) -> FileMetrics {
    let mut m = FileMetrics::blank();
    m.loc = n;
    m
}

#[test]
fn outcomes_of_scans() {
    let walked = file_outcome(
        locs(3),
        ScanStep::Walked {
            metrics: FileMetrics { loc: 3, nosec: 1, skipped_tests: 2, issues: None },
            scores: Scores { severity: [0, 3, 10, 0], confidence: [0, 0, 0, 20] },
            issues: Vec::new(),
            source: SourceFile::new("a.py", "x = 1\n"),
            logs: Vec::new(),
        },
    );
    assert_eq!(walked.metrics.issues, Some([[0, 1, 2, 0], [0, 0, 0, 2]]));
    assert_eq!((walked.metrics.loc, walked.metrics.nosec, walked.metrics.skipped_tests), (3, 1, 2));
    assert!(walked.skipped.is_none() && walked.source.is_some());
    let failed = file_outcome(locs(4), ScanStep::Failed(SYNTAX_ERROR.to_string()));
    assert_eq!(failed.metrics, locs(4));
    assert_eq!(failed.skipped.as_deref(), Some("syntax error while parsing AST from file"));
    assert!(failed.source.is_none() && failed.issues.is_empty());
    let crashed = file_outcome(locs(5), ScanStep::Crashed);
    assert_eq!(crashed.skipped.as_deref(), Some(SCAN_EXCEPTION));
    assert_eq!(crashed.metrics.issues, None);
}
