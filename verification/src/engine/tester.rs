//! What happens to the result of one test on one node: the `# nosec` filter,
//! the issue built from the draft, and the metrics and scores it counts in.
//!
//! Running the tests themselves is the caller's part (they read the syntax
//! tree); it hands the results of a node's tests to [`Tester::run_tests`].

use vstd::prelude::*;
use crate::ast::literal::PyErr;
use crate::ast::vnode::{NodeKind, kind_index};
use crate::constants::{rank_index, rank_value};
use crate::engine::issue::{Issue, IssueDraft, LineRange};
use crate::engine::metrics::{FileMetrics, Scores};
use crate::engine::nosec::{NosecLines, ids_on, first_ids};
use crate::fx::{no_strings, str_set, strset_contains, strset_copy, strset_is_empty, strset_union, StrSet};
use crate::engine::issue::range_lines;
use crate::engine::test_set::TestSet;
use crate::log::Level;
use crate::source::SourceFile;
use crate::text::{copy_string, decimal, push_decimal, push_str, to_owned_string};

verus! {

/// Where the node under test is.
#[derive(Debug, Clone)]
pub struct NodeInfo {
    pub filename: String,
    pub lineno: Option<u32>,
    pub col_offset: Option<u32>,
    pub end_col_offset: u32,
    pub linerange: LineRange,
}

/// The tester of one file.
#[derive(Debug)]
pub struct Tester {
    pub nosec: NosecLines,
    pub metrics: FileMetrics,
    pub results: Vec<Issue>,
    /// Source attached to every reported issue (for snippets).
    pub source: Option<SourceFile>,
}

/// The ids silenced for a result: those of the result's own line (only
/// when it gives one) and those of the node's line range, united; `None`
/// when neither has a nosec comment.
pub open spec fn nosec_for(n: NosecLines, lineno: Option<u32>, range: LineRange) -> Option<Set<Seq<char>>> {
    let base = match lineno {
        Some(l) => ids_on(n, l),
        None => None,
    };
    let ctx = first_ids(n, range_lines(range));
    match (base, ctx) {
        (None, None) => None,
        (Some(a), None) => Some(a),
        (None, Some(b)) => Some(b),
        (Some(a), Some(b)) => Some(a.union(b)),
    }
}

/// `_get_nosecs_from_contexts`.
pub fn combined_nosec(n: &NosecLines, draft_lineno: Option<u32>, range: LineRange) -> (r: Option<StrSet>)
    ensures
        match nosec_for(*n, draft_lineno, range) {
            Some(ids) => r is Some && str_set(r.unwrap()) == ids,
            None => r is None,
        },
{
    let base = match draft_lineno {
        Some(l) => n.get(l),
        None => None,
    };
    let ctx = n.for_range(range);
    match (base, ctx) {
        (None, None) => None,
        (Some(a), None) => Some(strset_copy(a)),
        (None, Some(b)) => Some(strset_copy(b)),
        (Some(a), Some(b)) => Some(strset_union(a, b)),
    }
}

/// What the nosec filter does with a result.
pub enum Verdict {
    /// The issue is reported.
    Report,
    /// Silenced by a blanket nosec (`metrics.nosec` counts it).
    Nosec,
    /// Silenced by a nosec naming its test (`metrics.skipped_tests`).
    Skipped,
}

/// The nosec filter: no nosec comment → report; a blanket one → nosec; one naming
/// the test → skipped; else report.
pub open spec fn verdict(ids: Option<Set<Seq<char>>>, test_id: Seq<char>) -> Verdict {
    match ids {
        None => Verdict::Report,
        Some(s) => if s == no_strings() {
            Verdict::Nosec
        } else if s.contains(test_id) {
            Verdict::Skipped
        } else {
            Verdict::Report
        },
    }
}

/// The test id of a draft's issue.
pub open spec fn draft_test_id(d: IssueDraft, default_id: Seq<char>) -> Seq<char> {
    match d.test_id {
        Some(t) => t@,
        None => default_id,
    }
}

/// The issue a draft becomes for a node.
pub open spec fn built_issue(
    d: IssueDraft,
    name: Seq<char>,
    default_id: Seq<char>,
    node: NodeInfo,
    source: Option<SourceFile>,
    i: Issue,
) -> bool {
    &&& i.severity == d.severity
    &&& i.confidence == d.confidence
    &&& i.cwe == d.cwe
    &&& i.text@ == d.text@
    &&& i.ident == d.ident
    &&& i.fname@ == node.filename@
    &&& i.test@ == name
    &&& i.test_id@ == draft_test_id(d, default_id)
    &&& i.lineno == match d.lineno {
        Some(l) => l,
        None => match node.lineno {
            Some(l) => l,
            None => 0,
        },
    }
    &&& i.col_offset == match d.col_offset {
        Some(c) => c,
        None => match node.col_offset {
            Some(c) => c,
            None => 0,
        },
    }
    &&& i.end_col_offset == node.end_col_offset
    &&& i.linerange == match d.linerange {
        Some(r) => r,
        None => node.linerange,
    }
    &&& i.source is Some == source is Some
}

/// The message logged for a test that raised.
pub open spec fn internal_error_text(name: Seq<char>, node: NodeInfo, err: Seq<char>) -> Seq<char> {
    "Bandit internal error running: "@ + name + " on file "@ + node.filename@ + " at line "@ + decimal(
        match node.lineno {
            Some(l) => l as nat,
            None => 0,
        },
    ) + ": "@ + err
}

/// The message logged for a nosec comment naming a test that found
/// nothing.
pub open spec fn unused_nosec_text(id: Seq<char>, node: NodeInfo) -> Seq<char> {
    "nosec encountered ("@ + id + "), but no failed test on file "@ + node.filename@ + ":"@ + decimal(
        match node.lineno {
            Some(l) => l as nat,
            None => 0,
        },
    )
}

/// Whether a node kind has tests to run.
pub fn wants(test_set: &TestSet, kind: NodeKind) -> (r: bool)
    ensures
        r == (kind_index(kind) < test_set.tests@.len() && test_set.tests@[kind_index(kind) as int]@.len() > 0),
{
    test_set.get_tests(kind).len() > 0
}

fn line_or_zero(l: Option<u32>) -> (r: u64)
    ensures
        r == match l {
            Some(x) => x as nat,
            None => 0,
        },
{
    match l {
        Some(x) => x as u64,
        None => 0,
    }
}

/// Whether the scores can take the issue of `result` where it is
/// reported.
pub open spec fn report_fits(
    scores: Scores,
    n: NosecLines,
    node: NodeInfo,
    default_id: Seq<char>,
    result: Result<Option<IssueDraft>, PyErr>,
) -> bool {
    match result {
        Ok(Some(d)) => verdict(nosec_for(n, d.lineno, node.linerange), draft_test_id(d, default_id)) == Verdict::Report
            ==> scores.severity@[rank_index(d.severity) as int] + rank_value(d.severity) <= u64::MAX
            && scores.confidence@[rank_index(d.confidence) as int] + rank_value(d.confidence) <= u64::MAX,
        _ => true,
    }
}

impl Tester {
    /// Records the result of test `name` (default id `default_id`) on a
    /// node: reports the issue unless a nosec comment silences it, counts
    /// silenced issues, and hands back the line to log, if any.
    pub fn record(
        &mut self,
        scores: &mut Scores,
        name: &str,
        default_id: &str,
        result: Result<Option<IssueDraft>, PyErr>,
        node: &NodeInfo,
    ) -> (r: Option<(Level, String)>)
        requires
            old(self).metrics.nosec < u64::MAX,
            old(self).metrics.skipped_tests < u64::MAX,
            report_fits(*old(scores), old(self).nosec, *node, default_id@, result),
        ensures
            final(self).nosec == old(self).nosec,
            final(self).source == old(self).source,
            final(self).metrics.loc == old(self).metrics.loc,
            final(self).metrics.issues == old(self).metrics.issues,
            match result {
                Err(e) => r == Some((Level::Error, r.unwrap().1)) && r.unwrap().1@ == internal_error_text(name@, *node, e.0@)
                    && final(self).results@ == old(self).results@ && final(self).metrics == old(self).metrics
                    && *final(scores) == *old(scores),
                Ok(None) => final(self).results@ == old(self).results@ && final(self).metrics == old(self).metrics
                    && *final(scores) == *old(scores) && match nosec_for(old(self).nosec, None, node.linerange) {
                        Some(ids) => if ids != no_strings() && ids.contains(default_id@) {
                            r is Some && r.unwrap().0 == Level::Warning && r.unwrap().1@ == unused_nosec_text(default_id@, *node)
                        } else {
                            r is None
                        },
                        None => r is None,
                    },
                Ok(Some(d)) => r is None && match verdict(nosec_for(old(self).nosec, d.lineno, node.linerange), draft_test_id(d, default_id@)) {
                    Verdict::Report => final(self).results@.len() == old(self).results@.len() + 1
                        && final(self).results@.drop_last() == old(self).results@
                        && built_issue(d, name@, default_id@, *node, old(self).source, final(self).results@.last())
                        && final(scores).severity@ == old(scores).severity@.update(
                            rank_index(d.severity) as int,
                            (old(scores).severity@[rank_index(d.severity) as int] + rank_value(d.severity)) as u64,
                        )
                        && final(scores).confidence@ == old(scores).confidence@.update(
                            rank_index(d.confidence) as int,
                            (old(scores).confidence@[rank_index(d.confidence) as int] + rank_value(d.confidence)) as u64,
                        )
                        && final(self).metrics == old(self).metrics,
                    Verdict::Nosec => final(self).results@ == old(self).results@ && *final(scores) == *old(scores)
                        && final(self).metrics.nosec == old(self).metrics.nosec + 1
                        && final(self).metrics.skipped_tests == old(self).metrics.skipped_tests,
                    Verdict::Skipped => final(self).results@ == old(self).results@ && *final(scores) == *old(scores)
                        && final(self).metrics.skipped_tests == old(self).metrics.skipped_tests + 1
                        && final(self).metrics.nosec == old(self).metrics.nosec,
                },
            },
    {
        match result {
            Err(e) => {
                let mut m = String::new();
                push_str(&mut m, "Bandit internal error running: ");
                push_str(&mut m, name);
                push_str(&mut m, " on file ");
                push_str(&mut m, node.filename.as_str());
                push_str(&mut m, " at line ");
                push_decimal(&mut m, line_or_zero(node.lineno));
                push_str(&mut m, ": ");
                push_str(&mut m, e.0.as_str());
                assert(m@ =~= internal_error_text(name@, *node, e.0@));
                Some((Level::Error, m))
            },
            Ok(None) => {
                match combined_nosec(&self.nosec, None, node.linerange) {
                    Some(ids) => {
                        if !strset_is_empty(&ids) && strset_contains(&ids, default_id) {
                            let mut m = String::new();
                            push_str(&mut m, "nosec encountered (");
                            push_str(&mut m, default_id);
                            push_str(&mut m, "), but no failed test on file ");
                            push_str(&mut m, node.filename.as_str());
                            push_str(&mut m, ":");
                            push_decimal(&mut m, line_or_zero(node.lineno));
                            assert(m@ =~= unused_nosec_text(default_id@, *node));
                            Some((Level::Warning, m))
                        } else {
                            None
                        }
                    },
                    None => None,
                }
            },
            Ok(Some(d)) => {
                let ids = combined_nosec(&self.nosec, d.lineno, node.linerange);
                let test_id: String = match &d.test_id {
                    Some(t) => copy_string(t),
                    None => to_owned_string(default_id),
                };
                let report = match &ids {
                    None => true,
                    Some(v) => {
                        if strset_is_empty(v) {
                            self.metrics.nosec = self.metrics.nosec + 1;
                            false
                        } else if strset_contains(v, test_id.as_str()) {
                            self.metrics.skipped_tests = self.metrics.skipped_tests + 1;
                            false
                        } else {
                            true
                        }
                    },
                };
                if report {
                    let lineno = match d.lineno {
                        Some(l) => l,
                        None => match node.lineno {
                            Some(l) => l,
                            None => 0,
                        },
                    };
                    let col_offset = match d.col_offset {
                        Some(c) => c,
                        None => match node.col_offset {
                            Some(c) => c,
                            None => 0,
                        },
                    };
                    let linerange = match d.linerange {
                        Some(r) => r,
                        None => node.linerange,
                    };
                    let source = match &self.source {
                        Some(s) => Some(s.copy()),
                        None => None,
                    };
                    let issue = Issue {
                        severity: d.severity,
                        confidence: d.confidence,
                        cwe: d.cwe,
                        text: d.text,
                        ident: d.ident,
                        fname: copy_string(&node.filename),
                        test: to_owned_string(name),
                        test_id,
                        lineno,
                        col_offset,
                        end_col_offset: node.end_col_offset,
                        linerange,
                        source,
                    };
                    scores.note(issue.severity, issue.confidence);
                    let ghost before = self.results@;
                    self.results.push(issue);
                    assert(self.results@.drop_last() =~= before);
                }
                None
            },
        }
    }
}

/// What one test returned for a node: its name and id, and its result.
pub struct TestOutcome {
    pub name: String,
    pub default_id: String,
    pub result: Result<Option<IssueDraft>, PyErr>,
}

/// The verdict on an outcome that found an issue.
pub open spec fn outcome_verdict(n: NosecLines, node: NodeInfo, o: TestOutcome) -> Option<Verdict> {
    match o.result {
        Ok(Some(d)) => Some(verdict(nosec_for(n, d.lineno, node.linerange), draft_test_id(d, o.default_id@))),
        _ => None,
    }
}

/// The outcomes whose issue is reported, in order.
pub open spec fn reported(n: NosecLines, node: NodeInfo, os: Seq<TestOutcome>) -> Seq<TestOutcome>
    decreases os.len(),
{
    if os.len() == 0 {
        Seq::empty()
    } else {
        reported(n, node, os.drop_last()) + if outcome_verdict(n, node, os.last()) == Some(Verdict::Report) {
            seq![os.last()]
        } else {
            Seq::empty()
        }
    }
}

/// How many outcomes get verdict `v`.
pub open spec fn verdict_count(n: NosecLines, node: NodeInfo, os: Seq<TestOutcome>, v: Verdict) -> nat
    decreases os.len(),
{
    if os.len() == 0 {
        0
    } else {
        verdict_count(n, node, os.drop_last(), v) + if outcome_verdict(n, node, os.last()) == Some(v) { 1nat } else { 0 }
    }
}

/// The line logged about an outcome, if any.
pub open spec fn outcome_note(n: NosecLines, node: NodeInfo, o: TestOutcome) -> Option<(Level, Seq<char>)> {
    match o.result {
        Err(e) => Some((Level::Error, internal_error_text(o.name@, node, e.0@))),
        Ok(None) => match nosec_for(n, None, node.linerange) {
            Some(ids) => if ids != no_strings() && ids.contains(o.default_id@) {
                Some((Level::Warning, unused_nosec_text(o.default_id@, node)))
            } else {
                None
            },
            None => None,
        },
        Ok(Some(_)) => None,
    }
}

/// The lines logged about the outcomes, in order.
pub open spec fn outcome_notes(n: NosecLines, node: NodeInfo, os: Seq<TestOutcome>) -> Seq<(Level, Seq<char>)>
    decreases os.len(),
{
    if os.len() == 0 {
        Seq::empty()
    } else {
        outcome_notes(n, node, os.drop_last()) + match outcome_note(n, node, os.last()) {
            Some(x) => seq![x],
            None => Seq::empty(),
        }
    }
}

/// The draft of an outcome that found an issue.
pub open spec fn draft_of(o: TestOutcome) -> IssueDraft {
    o.result->Ok_0->Some_0
}

/// Severity and confidence of the reported outcomes.
pub open spec fn reported_ranks(os: Seq<TestOutcome>) -> Seq<(crate::constants::Rank, crate::constants::Rank)> {
    os.map_values(|o: TestOutcome| (draft_of(o).severity, draft_of(o).confidence))
}

fn push_log(logs: &mut Vec<(Level, String)>, x: Option<(Level, String)>)
    ensures
        logs_view(final(logs)@) == logs_view(old(logs)@) + match x {
            Some(p) => seq![(p.0, p.1@)],
            None => Seq::<(Level, Seq<char>)>::empty(),
        },
{
    match x {
        Some(p) => {
            let ghost pv = (p.0, p.1@);
            logs.push(p);
            assert(logs_view(logs@) =~= logs_view(old(logs)@).push(pv));
        },
        None => {
            assert(logs_view(logs@) =~= logs_view(old(logs)@) + Seq::<(Level, Seq<char>)>::empty());
        },
    }
}

/// The views of logged lines.
pub open spec fn logs_view(s: Seq<(Level, String)>) -> Seq<(Level, Seq<char>)> {
    s.map_values(|p: (Level, String)| (p.0, p.1@))
}

impl Tester {
    /// `run_tests(context, kind)` once the tests of the node's kind have run:
    /// each outcome, in order, goes through [`Tester::record`]. Returns the
    /// scores of the reported issues and the lines to log.
    pub fn run_tests(&mut self, node: &NodeInfo, outcomes: Vec<TestOutcome>) -> (r: (Scores, Vec<(Level, String)>))
        requires
            forall|c: int, i: int| 0 <= c < 2 && 0 <= i < 4 ==> crate::engine::metrics::score_of(
                reported_ranks(reported(old(self).nosec, *node, outcomes@)),
                c,
                i,
            ) <= u64::MAX,
            old(self).metrics.nosec + outcomes@.len() < u64::MAX,
            old(self).metrics.skipped_tests + outcomes@.len() < u64::MAX,
        ensures
            final(self).nosec == old(self).nosec,
            final(self).metrics.loc == old(self).metrics.loc,
            final(self).metrics.issues == old(self).metrics.issues,
            final(self).metrics.nosec == old(self).metrics.nosec + verdict_count(old(self).nosec, *node, outcomes@, Verdict::Nosec),
            final(self).metrics.skipped_tests == old(self).metrics.skipped_tests + verdict_count(
                old(self).nosec,
                *node,
                outcomes@,
                Verdict::Skipped,
            ),
            final(self).results@.len() == old(self).results@.len() + reported(old(self).nosec, *node, outcomes@).len(),
            final(self).results@.subrange(0, old(self).results@.len() as int) == old(self).results@,
            forall|k: int| 0 <= k < reported(old(self).nosec, *node, outcomes@).len() ==> {
                let o = #[trigger] reported(old(self).nosec, *node, outcomes@)[k];
                built_issue(draft_of(o), o.name@, o.default_id@, *node, old(self).source, final(self).results@[old(self).results@.len() + k])
            },
            forall|c: int, i: int| 0 <= c < 2 && 0 <= i < 4 ==> crate::engine::metrics::score_entry(r.0, c, i)
                == crate::engine::metrics::score_of(reported_ranks(reported(old(self).nosec, *node, outcomes@)), c, i),
            logs_view(r.1@) == outcome_notes(old(self).nosec, *node, outcomes@),
    {
        let ghost os = outcomes@;
        let ghost start = self.results@;
        let ghost n = self.nosec;
        let total = outcomes.len();
        let mut outcomes = outcomes;
        let mut scores = Scores { severity: [0, 0, 0, 0], confidence: [0, 0, 0, 0] };
        let mut logs: Vec<(Level, String)> = Vec::new();
        let mut k: usize = 0;
        proof {
            assert(os.subrange(0, 0) =~= Seq::<TestOutcome>::empty());
            assert(logs_view(logs@) =~= Seq::<(Level, Seq<char>)>::empty());
            assert(self.results@.subrange(0, start.len() as int) =~= start);
        }
        while outcomes.len() > 0
            invariant
                k <= os.len(),
                os.len() == total,
                outcomes@ == os.skip(k as int),
                self.nosec == n,
                old(self).nosec == n,
                old(self).source == self.source,
                self.metrics.loc == old(self).metrics.loc,
                self.metrics.issues == old(self).metrics.issues,
                forall|c: int, i: int| 0 <= c < 2 && 0 <= i < 4 ==> crate::engine::metrics::score_of(
                    reported_ranks(reported(n, *node, os)),
                    c,
                    i,
                ) <= u64::MAX,
                old(self).metrics.nosec + os.len() < u64::MAX,
                old(self).metrics.skipped_tests + os.len() < u64::MAX,
                self.metrics.nosec == old(self).metrics.nosec + verdict_count(n, *node, os.subrange(0, k as int), Verdict::Nosec),
                self.metrics.skipped_tests == old(self).metrics.skipped_tests + verdict_count(n, *node, os.subrange(0, k as int), Verdict::Skipped),
                verdict_count(n, *node, os.subrange(0, k as int), Verdict::Nosec) <= k,
                verdict_count(n, *node, os.subrange(0, k as int), Verdict::Skipped) <= k,
                self.results@.len() == start.len() + reported(n, *node, os.subrange(0, k as int)).len(),
                reported(n, *node, os.subrange(0, k as int)).len() <= k,
                self.results@.subrange(0, start.len() as int) == start,
                start == old(self).results@,
                forall|j: int| 0 <= j < reported(n, *node, os.subrange(0, k as int)).len() ==> {
                    let o = #[trigger] reported(n, *node, os.subrange(0, k as int))[j];
                    built_issue(draft_of(o), o.name@, o.default_id@, *node, old(self).source, self.results@[start.len() + j])
                },
                forall|c: int, i: int| 0 <= c < 2 && 0 <= i < 4 ==> crate::engine::metrics::score_entry(scores, c, i)
                    == crate::engine::metrics::score_of(reported_ranks(reported(n, *node, os.subrange(0, k as int))), c, i),
                logs_view(logs@) == outcome_notes(n, *node, os.subrange(0, k as int)),
            decreases outcomes@.len(),
        {
            assert(k < os.len());
            let o = outcomes.remove(0);
            let ghost pre = os.subrange(0, k as int);
            let ghost cur = os.subrange(0, k + 1);
            assert(cur.drop_last() =~= pre);
            assert(o == os[k as int]);
            assert(cur.last() == o);
            assert(os.skip(k as int).skip(1) =~= os.skip(k + 1));
            let ghost rp = reported(n, *node, pre);
            let ghost og0 = o;
            proof {
                match og0.result {
                    Ok(Some(d)) => {
                        if verdict(nosec_for(n, d.lineno, node.linerange), draft_test_id(d, og0.default_id@)) == Verdict::Report {
                            assert(reported(n, *node, cur) =~= rp.push(og0));
                            assert(reported_ranks(reported(n, *node, cur)) =~= reported_ranks(rp).push((d.severity, d.confidence)));
                            lemma_score_prefix(n, *node, os, k + 1, 0, rank_index(d.severity) as int);
                            lemma_score_prefix(n, *node, os, k + 1, 1, rank_index(d.confidence) as int);
                            let rr = reported_ranks(rp);
                            let r2 = rr.push((d.severity, d.confidence));
                            assert(r2.drop_last() =~= rr);
                            assert(crate::engine::metrics::score_entry(scores, 0, rank_index(d.severity) as int)
                                == scores.severity@[rank_index(d.severity) as int]);
                            assert(crate::engine::metrics::score_entry(scores, 1, rank_index(d.confidence) as int)
                                == scores.confidence@[rank_index(d.confidence) as int]);
                            assert(crate::engine::metrics::score_of(r2, 0, rank_index(d.severity) as int)
                                == crate::engine::metrics::score_of(rr, 0, rank_index(d.severity) as int) + rank_value(d.severity));
                            assert(crate::engine::metrics::score_of(r2, 1, rank_index(d.confidence) as int)
                                == crate::engine::metrics::score_of(rr, 1, rank_index(d.confidence) as int) + rank_value(d.confidence));
                        }
                    },
                    _ => {},
                }
            }
            let ghost s0 = scores;
            let ghost r0 = self.results@;
            let ghost og = o;
            let TestOutcome { name, default_id, result } = o;
            let note = self.record(&mut scores, name.as_str(), default_id.as_str(), result, node);
            push_log(&mut logs, note);
            proof {
                assert(logs_view(logs@) =~= outcome_notes(n, *node, cur));
                match og.result {
                    Ok(Some(d)) => {
                        let v = verdict(nosec_for(n, d.lineno, node.linerange), draft_test_id(d, og.default_id@));
                        if v == Verdict::Report {
                            assert(reported(n, *node, cur) =~= rp.push(og));
                            assert(reported_ranks(reported(n, *node, cur)) =~= reported_ranks(rp).push((d.severity, d.confidence)));
                            crate::engine::metrics::lemma_note_extends(reported_ranks(rp), s0, scores, d.severity, d.confidence);
                            assert(self.results@.subrange(0, start.len() as int) =~= r0.subrange(0, start.len() as int));
                            assert forall|j: int| 0 <= j < reported(n, *node, cur).len() implies {
                                let o2 = #[trigger] reported(n, *node, cur)[j];
                                built_issue(draft_of(o2), o2.name@, o2.default_id@, *node, old(self).source, self.results@[start.len() + j])
                            } by {
                                if j < rp.len() {
                                    assert(reported(n, *node, cur)[j] == rp[j]);
                                    assert(self.results@[start.len() + j] == r0[start.len() + j]);
                                } else {
                                    assert(reported(n, *node, cur)[j] == og);
                                }
                            }
                        } else {
                            assert(reported(n, *node, cur) =~= rp);
                        }
                    },
                    _ => {
                        assert(reported(n, *node, cur) =~= rp);
                    },
                }
            }
            k = k + 1;
        }
        proof {
            assert(os.subrange(0, k as int) =~= os);
        }
        (scores, logs)
    }
}

/// The scores of the outcomes reported among the first `j` are at most
/// those of all of them.
proof fn lemma_score_prefix(n: NosecLines, node: NodeInfo, os: Seq<TestOutcome>, j: int, c: int, i: int)
    requires
        0 <= j <= os.len(),
    ensures
        crate::engine::metrics::score_of(reported_ranks(reported(n, node, os.subrange(0, j))), c, i)
            <= crate::engine::metrics::score_of(reported_ranks(reported(n, node, os)), c, i),
    decreases os.len() - j,
{
    if j == os.len() {
        assert(os.subrange(0, j) =~= os);
    } else {
        lemma_score_prefix(n, node, os, j + 1, c, i);
        let cur = os.subrange(0, j + 1);
        assert(cur.drop_last() =~= os.subrange(0, j));
        let a = reported_ranks(reported(n, node, os.subrange(0, j)));
        if outcome_verdict(n, node, cur.last()) == Some(Verdict::Report) {
            let b = reported_ranks(reported(n, node, cur));
            assert(reported(n, node, cur) =~= reported(n, node, os.subrange(0, j)).push(cur.last()));
            assert(b.drop_last() =~= a);
        } else {
            assert(reported(n, node, cur) =~= reported(n, node, os.subrange(0, j)));
        }
    }
}

} // verus!
