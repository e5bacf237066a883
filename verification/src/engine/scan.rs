//! The outcome of scanning one file.

use vstd::prelude::*;
use crate::engine::issue::Issue;
use crate::engine::metrics::{score_entry, weight, FileMetrics, Scores};
use crate::log::Entry;
use crate::source::SourceFile;

verus! {

/// The reason given for a file whose syntax tree could not be built.
pub const SYNTAX_ERROR: &'static str = "syntax error while parsing AST from file";

/// The reason given for a file whose scan failed unexpectedly.
pub const SCAN_EXCEPTION: &'static str = "exception while scanning file";

/// Outcome of scanning one file.
#[derive(Debug)]
pub struct FileOutcome {
    pub metrics: FileMetrics,
    pub scores: Scores,
    pub issues: Vec<Issue>,
    /// Kept when the file produced issues (for code snippets).
    pub source: Option<SourceFile>,
    /// Skip reason when the scan did not complete.
    pub skipped: Option<String>,
    /// Buffered log records (flushed in file order).
    pub logs: Vec<Entry>,
}

/// How the scan of a decoded file went.
#[derive(Debug)]
pub enum ScanStep {
    /// The tree was walked: the metrics the tests left, their scores, the
    /// issues reported, the source, and the records logged meanwhile.
    Walked { metrics: FileMetrics, scores: Scores, issues: Vec<Issue>, source: SourceFile, logs: Vec<Entry> },
    /// The file could not be decoded or parsed.
    Failed(String),
    /// The scan stopped unexpectedly.
    Crashed,
}

/// `_parse_file` once the scan is over: a walked file keeps what the walk
/// gave, its issue counts taken from the scores; a file whose scan did
/// not complete keeps the metrics counted before it (`locs`) and is
/// skipped with the reason.
pub fn file_outcome(locs: FileMetrics, step: ScanStep) -> (r: FileOutcome)
    ensures
        match step {
            ScanStep::Walked { metrics, scores, issues, source, logs } => {
                &&& r.metrics.loc == metrics.loc && r.metrics.nosec == metrics.nosec
                &&& r.metrics.skipped_tests == metrics.skipped_tests
                &&& r.metrics.issues is Some
                &&& forall|c: int, i: int| 0 <= c < 2 && 0 <= i < 4 ==> #[trigger] r.metrics.issues.unwrap()@[c]@[i]
                    == score_entry(scores, c, i) as nat / weight(i)
                &&& r.scores == scores && r.issues == issues && r.source == Some(source) && r.skipped is None
                &&& r.logs == logs
            },
            ScanStep::Failed(reason) => {
                &&& r.metrics == locs && r.issues@.len() == 0 && r.source is None && r.logs@.len() == 0
                &&& r.skipped == Some(reason)
                &&& r.scores == (Scores { severity: [0, 0, 0, 0], confidence: [0, 0, 0, 0] })
            },
            ScanStep::Crashed => {
                &&& r.metrics == locs && r.issues@.len() == 0 && r.source is None && r.logs@.len() == 0
                &&& r.skipped matches Some(x) && x@ == SCAN_EXCEPTION@
                &&& r.scores == (Scores { severity: [0, 0, 0, 0], confidence: [0, 0, 0, 0] })
            },
        },
{
    match step {
        ScanStep::Walked { metrics, scores, issues, source, logs } => {
            let mut m = metrics;
            m.count_issues(&scores);
            FileOutcome { metrics: m, scores, issues, source: Some(source), skipped: None, logs }
        },
        ScanStep::Failed(reason) => FileOutcome {
            metrics: locs,
            scores: Scores { severity: [0, 0, 0, 0], confidence: [0, 0, 0, 0] },
            issues: Vec::new(),
            source: None,
            skipped: Some(reason),
            logs: Vec::new(),
        },
        ScanStep::Crashed => FileOutcome {
            metrics: locs,
            scores: Scores { severity: [0, 0, 0, 0], confidence: [0, 0, 0, 0] },
            issues: Vec::new(),
            source: None,
            skipped: Some(crate::text::to_owned_string(SCAN_EXCEPTION)),
            logs: Vec::new(),
        },
    }
}

} // verus!
