//! The scan manager: the files of a run, their outcomes merged in file
//! order, and the issues selected for output (against a baseline when one
//! is loaded).
//!
//! Reading the files and scanning them (in parallel) is the caller's part;
//! it hands the outcomes in to [`Manager::run_tests`].

use vstd::prelude::*;
use crate::ast::PyCompat;
use crate::constants::Rank;
use crate::engine::config::BanditConfig;
use crate::engine::discover::{discover_files, Discovered, TargetKind};
use crate::engine::issue::{BaselineIssue, Issue, passes_filter, same_signature_spec, matches_baseline_spec};
use crate::engine::metrics::{Metrics, Scores, FileMetrics, file_entries, key_position};
use crate::engine::scan::FileOutcome;
use crate::engine::test_set::TestSet;
use crate::log::Entry;
use crate::source::SourceFile;
use crate::text::{copy_string, str_eq, to_owned_string, views_of};

verus! {

/// `-a/--aggregate`.
#[derive(Debug, Clone, Copy, PartialEq, Eq, Structural, Default)]
pub enum AggType {
    #[default]
    File,
    Vuln,
}

/// Issues selected for output: a plain list, or (against a baseline) the
/// new issues each with its candidate matches.
#[derive(Debug)]
pub enum IssueList<'m> {
    Plain(Vec<&'m Issue>),
    Baseline(Vec<(&'m Issue, Vec<&'m Issue>)>),
}

impl<'m> IssueList<'m> {
    /// Number of issues.
    pub fn len(&self) -> (r: usize)
        ensures
            r == match *self {
                IssueList::Plain(v) => v@.len(),
                IssueList::Baseline(v) => v@.len(),
            },
    {
        match self {
            IssueList::Plain(v) => v.len(),
            IssueList::Baseline(v) => v.len(),
        }
    }

    /// Whether there is no issue.
    pub fn is_empty(&self) -> (r: bool)
        ensures
            r == (match *self {
                IssueList::Plain(v) => v@.len(),
                IssueList::Baseline(v) => v@.len(),
            } == 0),
    {
        self.len() == 0
    }

    /// The issues (without their candidates).
    pub fn issues(&self) -> (r: Vec<&'m Issue>)
        ensures
            r@ == match *self {
                IssueList::Plain(v) => v@,
                IssueList::Baseline(v) => v@.map_values(|x: (&'m Issue, Vec<&'m Issue>)| x.0),
            },
    {
        match self {
            IssueList::Plain(v) => {
                let mut out: Vec<&'m Issue> = Vec::new();
                let mut i: usize = 0;
                while i < v.len()
                    invariant
                        i <= v@.len(),
                        out@ =~= v@.subrange(0, i as int),
                    decreases v@.len() - i,
                {
                    out.push(v[i]);
                    i = i + 1;
                }
                out
            },
            IssueList::Baseline(v) => {
                let mut out: Vec<&'m Issue> = Vec::new();
                let mut i: usize = 0;
                while i < v.len()
                    invariant
                        i <= v@.len(),
                        out@ =~= v@.map_values(|x: (&'m Issue, Vec<&'m Issue>)| x.0).subrange(0, i as int),
                    decreases v@.len() - i,
                {
                    out.push(v[i].0);
                    i = i + 1;
                }
                out
            },
        }
    }
}

/// The issues of `results` whose signature matches none of `baseline`,
/// in order.
pub open spec fn new_issues<'a>(baseline: Seq<&'a Issue>, results: Seq<&'a Issue>) -> Seq<&'a Issue>
    decreases results.len(),
{
    if results.len() == 0 {
        Seq::empty()
    } else {
        let r = results.last();
        new_issues(baseline, results.drop_last()) + (if exists|k: int| 0 <= k < baseline.len() && same_signature_spec(*r, *baseline[k]) {
            Seq::empty()
        } else {
            seq![r]
        })
    }
}

/// The issues of `results` with the signature of `u`, in order.
pub open spec fn candidates<'a>(u: &'a Issue, results: Seq<&'a Issue>) -> Seq<&'a Issue>
    decreases results.len(),
{
    if results.len() == 0 {
        Seq::empty()
    } else {
        candidates(u, results.drop_last()) + (if same_signature_spec(*u, *results.last()) {
            seq![results.last()]
        } else {
            Seq::empty()
        })
    }
}

fn matches_any_signature(r: &Issue, baseline: &[&Issue]) -> (b: bool)
    ensures
        b == exists|k: int| 0 <= k < baseline@.len() && same_signature_spec(*r, *baseline@[k]),
{
    let mut k: usize = 0;
    while k < baseline.len()
        invariant
            k <= baseline@.len(),
            forall|j: int| 0 <= j < k ==> !same_signature_spec(*r, *baseline@[j]),
        decreases baseline@.len() - k,
    {
        if r.same_signature(baseline[k]) {
            return true;
        }
        k = k + 1;
    }
    false
}

/// `_compare_baseline_results(baseline, results)`: the results not in the
/// baseline.
pub fn compare_baseline_results<'m>(baseline: &[&Issue], results: &[&'m Issue]) -> (r: Vec<&'m Issue>)
    ensures
        r@ == new_issues(baseline@, results@),
{
    let mut out: Vec<&'m Issue> = Vec::new();
    let mut i: usize = 0;
    while i < results.len()
        invariant
            i <= results@.len(),
            out@ == new_issues(baseline@, results@.subrange(0, i as int)),
        decreases results@.len() - i,
    {
        let ghost t = results@.subrange(0, i + 1);
        assert(t.drop_last() =~= results@.subrange(0, i as int));
        assert(t.last() == results@[i as int]);
        if !matches_any_signature(results[i], baseline) {
            let ghost b = out@;
            out.push(results[i]);
            assert(out@ =~= b + seq![results@[i as int]]);
        } else {
            assert(out@ =~= out@ + Seq::<&Issue>::empty());
        }
        i = i + 1;
    }
    assert(results@.subrange(0, results@.len() as int) =~= results@);
    out
}

fn candidates_of<'m>(u: &'m Issue, results: &[&'m Issue]) -> (r: Vec<&'m Issue>)
    ensures
        r@ == candidates(u, results@),
{
    let mut out: Vec<&'m Issue> = Vec::new();
    let mut i: usize = 0;
    while i < results.len()
        invariant
            i <= results@.len(),
            out@ == candidates(u, results@.subrange(0, i as int)),
        decreases results@.len() - i,
    {
        let ghost t = results@.subrange(0, i + 1);
        assert(t.drop_last() =~= results@.subrange(0, i as int));
        assert(t.last() == results@[i as int]);
        if u.same_signature(results[i]) {
            let ghost b = out@;
            out.push(results[i]);
            assert(out@ =~= b + seq![results@[i as int]]);
        } else {
            assert(out@ =~= out@ + Seq::<&Issue>::empty());
        }
        i = i + 1;
    }
    assert(results@.subrange(0, results@.len() as int) =~= results@);
    out
}

/// `_find_candidate_matches(unmatched_issues, results_list)`: each
/// unmatched issue with the results of the same signature.
pub fn find_candidate_matches<'m>(unmatched: &[&'m Issue], results: &[&'m Issue]) -> (r: Vec<(&'m Issue, Vec<&'m Issue>)>)
    ensures
        r@.len() == unmatched@.len(),
        forall|i: int| 0 <= i < r@.len() ==> (#[trigger] r@[i]).0 == unmatched@[i] && r@[i].1@ == candidates(unmatched@[i], results@),
{
    let mut out: Vec<(&'m Issue, Vec<&'m Issue>)> = Vec::new();
    let mut i: usize = 0;
    while i < unmatched.len()
        invariant
            i <= unmatched@.len(),
            out@.len() == i,
            forall|j: int| 0 <= j < i ==> (#[trigger] out@[j]).0 == unmatched@[j] && out@[j].1@ == candidates(unmatched@[j], results@),
        decreases unmatched@.len() - i,
    {
        let c = candidates_of(unmatched[i], results);
        out.push((unmatched[i], c));
        i = i + 1;
    }
    out
}

/// The results that pass the thresholds, in order.
pub open spec fn filtered(results: Seq<Issue>, sev: Rank, conf: Rank) -> Seq<Issue>
    decreases results.len(),
{
    if results.len() == 0 {
        Seq::empty()
    } else {
        filtered(results.drop_last(), sev, conf) + (if passes_filter(results.last(), sev, conf) {
            seq![results.last()]
        } else {
            Seq::empty()
        })
    }
}

/// The issues of `results` that match no baseline issue, in order.
pub open spec fn unmatched(baseline: Seq<BaselineIssue>, results: Seq<Issue>) -> Seq<Issue>
    decreases results.len(),
{
    if results.len() == 0 {
        Seq::empty()
    } else {
        unmatched(baseline, results.drop_last()) + (if exists|k: int| 0 <= k < baseline.len() && matches_baseline_spec(results.last(), baseline[k]) {
            Seq::empty()
        } else {
            seq![results.last()]
        })
    }
}

/// The issues selected for output, in order: the results passing the
/// thresholds, less (against a baseline) those the baseline holds.
pub open spec fn selected(m: Manager, sev: Rank, conf: Rank) -> Seq<Issue> {
    if m.baseline@.len() == 0 {
        filtered(m.results@, sev, conf)
    } else {
        unmatched(m.baseline@, filtered(m.results@, sev, conf))
    }
}

/// `get_issue_list(sev, conf).issues()`: the issues selected for output.
pub fn selected_issues(m: &Manager, sev: Rank, conf: Rank) -> (r: Vec<&Issue>)
    ensures
        derefs(r@) == selected(*m, sev, conf),
{
    let l = m.get_issue_list(sev, conf);
    let v = l.issues();
    proof {
        match l {
            IssueList::Plain(p) => {},
            IssueList::Baseline(p) => {
                assert(derefs(v@) =~= p@.map_values(|x: (&Issue, Vec<&Issue>)| *x.0));
            },
        }
    }
    v
}

/// The values behind references.
pub open spec fn derefs(s: Seq<&Issue>) -> Seq<Issue> {
    s.map_values(|x: &Issue| *x)
}

/// What happened to one file of a run.
pub enum ScanResult {
    /// The file could not be read (the OS's message).
    OsError(String),
    /// The file was scanned.
    Scanned(FileOutcome),
}

/// `BanditManager`.
pub struct Manager {
    pub config: BanditConfig,
    pub agg_type: AggType,
    pub debug: bool,
    pub verbose: bool,
    pub quiet: bool,
    pub ignore_nosec: bool,
    pub compat: PyCompat,
    pub test_set: TestSet,
    pub files_list: Vec<String>,
    pub excluded_files: Vec<String>,
    /// `(file name, reason)`.
    pub skipped: Vec<(String, String)>,
    pub results: Vec<Issue>,
    pub baseline: Vec<BaselineIssue>,
    pub metrics: Metrics,
    /// One score entry per scanned file, in `files_list` order.
    pub scores: Vec<Scores>,
    /// Sources kept for code snippets.
    pub sources: Vec<SourceFile>,
}

/// The file names of a run, `-` (standard input) shown as `<stdin>`.
pub open spec fn stdin_named(files: Seq<String>) -> Seq<Seq<char>> {
    files.map_values(|f: String| if f@ == "-"@ { "<stdin>"@ } else { f@ })
}

/// The file names of a run with `-` shown as `<stdin>`, and whether `-`
/// is among them (standard input is then read).
pub fn stdin_names(files: &Vec<String>) -> (r: (Vec<String>, bool))
    ensures
        views_of(r.0@) == stdin_named(files@),
        r.1 == views_of(files@).contains("-"@),
{
    let mut out: Vec<String> = Vec::new();
    let mut any = false;
    let mut i: usize = 0;
    while i < files.len()
        invariant
            i <= files@.len(),
            views_of(out@) =~= stdin_named(files@).subrange(0, i as int),
            any == exists|j: int| 0 <= j < i && files@[j]@ == "-"@,
        decreases files@.len() - i,
    {
        let x = if str_eq(files[i].as_str(), "-") {
            any = true;
            to_owned_string("<stdin>")
        } else {
            copy_string(&files[i])
        };
        let ghost b = out@;
        out.push(x);
        assert(views_of(out@) =~= views_of(b).push(x@));
        i = i + 1;
    }
    proof {
        if any {
            let j = choose|j: int| 0 <= j < files@.len() && files@[j]@ == "-"@;
            assert(views_of(files@)[j] == "-"@);
        }
        if views_of(files@).contains("-"@) {
            let j = choose|j: int| 0 <= j < views_of(files@).len() && views_of(files@)[j] == "-"@;
            assert(files@[j]@ == "-"@);
        }
    }
    (out, any)
}

impl Manager {
    /// A manager for the run, nothing discovered or scanned yet.
    pub fn new(config: BanditConfig, agg_type: AggType, test_set: TestSet, compat: PyCompat) -> (r: Manager)
        ensures
            r.agg_type == agg_type,
            r.compat == compat,
            !r.debug && !r.verbose && !r.quiet && !r.ignore_nosec,
            r.files_list@.len() == 0 && r.excluded_files@.len() == 0 && r.skipped@.len() == 0,
            r.results@.len() == 0 && r.baseline@.len() == 0 && r.scores@.len() == 0,
            file_entries(r.metrics.files).len() == 0,
    {
        Manager {
            config,
            agg_type,
            debug: false,
            verbose: false,
            quiet: false,
            ignore_nosec: false,
            compat,
            test_set,
            files_list: Vec::new(),
            excluded_files: Vec::new(),
            skipped: Vec::new(),
            results: Vec::new(),
            baseline: Vec::new(),
            metrics: Metrics::new(),
            scores: Vec::new(),
            sources: Vec::new(),
        }
    }

    /// `discover_files(targets, recursive, excluded_paths)` once the file
    /// system has been asked about the targets; returns the directories
    /// skipped because the scan is not recursive.
    pub fn discover_files(
        &mut self,
        targets: &[String],
        kinds: &[TargetKind],
        recursive: bool,
        included: &[String],
        excluded_globs: &[String],
    ) -> (r: Vec<String>)
        requires
            kinds@.len() == targets@.len(),
        ensures
            final(self).config == old(self).config,
            final(self).results == old(self).results,
            final(self).skipped == old(self).skipped,
            final(self).metrics == old(self).metrics,
            final(self).test_set == old(self).test_set,
            crate::text::strictly_sorted(views_of(final(self).files_list@)),
            crate::text::strictly_sorted(views_of(final(self).excluded_files@)),
            views_of(r@) == crate::engine::discover::skipped_dirs(targets@, kinds@, recursive),
            forall|x: Seq<char>| views_of(final(self).files_list@).contains(x) <==> crate::engine::discover::discovered_files(
                targets@,
                kinds@,
                recursive,
                included@,
                excluded_globs@,
            ).contains(x),
            forall|x: Seq<char>| views_of(final(self).excluded_files@).contains(x) <==> crate::engine::discover::discovered_excluded(
                targets@,
                kinds@,
                recursive,
                included@,
                excluded_globs@,
            ).contains(x),
    {
        let (d, skipped) = discover_files(targets, kinds, recursive, included, excluded_globs);
        self.files_list = d.files;
        self.excluded_files = d.excluded;
        skipped
    }

    /// The outcomes of the scanned files, merged in file order: unreadable
    /// or unparsable files are skipped with their reason, the others keep
    /// their issues, scores and source; every scanned file's metrics are
    /// stored, then totalled. Returns the buffered log records in file
    /// order.
    pub fn run_tests(&mut self, outcomes: Vec<(String, ScanResult)>) -> (r: Vec<Entry>)
        requires
            crate::engine::metrics::totals_fit(absorbed_entries(file_entries(old(self).metrics.files), outcomes@)),
        ensures
            views_of(final(self).files_list@) == kept_files(outcomes@),
            final(self).skipped@.len() == old(self).skipped@.len() + skipped_count(outcomes@),
            pair_views(final(self).skipped@) == pair_views(old(self).skipped@) + skipped_list(outcomes@),
            final(self).results@ == old(self).results@ + kept_issues(outcomes@),
            final(self).scores@ == old(self).scores@ + kept_scores(outcomes@),
            r@ == scan_logs(outcomes@),
            file_entries(final(self).metrics.files) == absorbed_entries(file_entries(old(self).metrics.files), outcomes@),
            final(self).metrics.totals.issues is Some,
            forall|k: int| 0 <= k < 11 ==> (#[trigger] crate::engine::metrics::counter(k))(final(self).metrics.totals)
                == crate::engine::metrics::field_sum(
                    file_entries(final(self).metrics.files),
                    file_entries(final(self).metrics.files).len() as int,
                    crate::engine::metrics::counter(k),
                ),
    {
        let mut kept: Vec<String> = Vec::new();
        let mut logs: Vec<Entry> = Vec::new();
        let mut outcomes = outcomes;
        let ghost all = outcomes@;
        let ghost start_entries = file_entries(self.metrics.files);
        let ghost start_skipped = self.skipped@.len();
        let mut i: usize = 0;
        let n = outcomes.len();
        assert(outcomes@ =~= all.subrange(0, n as int));
        while i < n
            invariant
                n == all.len(),
                i <= n,
                outcomes@ =~= all.subrange(i as int, n as int),
                views_of(kept@) == kept_files(all.subrange(0, i as int)),
                self.skipped@.len() == start_skipped + skipped_count(all.subrange(0, i as int)),
                pair_views(self.skipped@) == pair_views(old(self).skipped@) + skipped_list(all.subrange(0, i as int)),
                self.results@ == old(self).results@ + kept_issues(all.subrange(0, i as int)),
                self.scores@ == old(self).scores@ + kept_scores(all.subrange(0, i as int)),
                logs@ == scan_logs(all.subrange(0, i as int)),
                file_entries(self.metrics.files) == absorbed_entries(start_entries, all.subrange(0, i as int)),
                crate::engine::metrics::totals_fit(absorbed_entries(start_entries, all)),
            decreases n - i,
        {
            let ghost pre = all.subrange(0, i as int);
            let ghost cur = all.subrange(0, i + 1);
            assert(cur.drop_last() =~= pre);
            assert(outcomes@[0] == all[i as int]);
            let (fname, outcome) = outcomes.remove(0);
            assert(cur.last() == (fname, outcome));
            assert(outcomes@ =~= all.subrange(i + 1, n as int));
            match outcome {
                ScanResult::OsError(reason) => {
                    let ghost sk = self.skipped@;
                    let ghost pv = (fname@, reason@);
                    self.skipped.push((fname, reason));
                    assert(pair_views(self.skipped@) =~= pair_views(sk).push(pv));
                    assert(kept_files(cur) =~= kept_files(pre));
                    assert(kept_issues(cur) =~= kept_issues(pre));
                    assert(kept_scores(cur) =~= kept_scores(pre));
                    assert(scan_logs(cur) =~= scan_logs(pre));
                    assert(skipped_list(cur) =~= skipped_list(pre).push(pv));
                },
                ScanResult::Scanned(o) => {
                    let ghost og = o;
                    let FileOutcome { metrics, scores, issues, source, skipped, logs: mut entries } = o;
                    let ghost lg = logs@;
                    logs.append(&mut entries);
                    assert(logs@ == lg + og.logs@);
                    assert(scan_logs(cur) =~= scan_logs(pre) + og.logs@);
                    let ghost before_entries = file_entries(self.metrics.files);
                    self.metrics.insert(fname.as_str(), metrics);
                    proof {
                        assert(file_entries(self.metrics.files) == record_entry(before_entries, fname@, metrics));
                    }
                    match skipped {
                        Some(reason) => {
                            let ghost sk = self.skipped@;
                            let ghost pv = (fname@, reason@);
                            self.skipped.push((fname, reason));
                            assert(pair_views(self.skipped@) =~= pair_views(sk).push(pv));
                            assert(kept_files(cur) =~= kept_files(pre));
                            assert(kept_issues(cur) =~= kept_issues(pre));
                            assert(kept_scores(cur) =~= kept_scores(pre));
                            assert(skipped_list(cur) =~= skipped_list(pre).push(pv));
                        },
                        None => {
                            let mut issues = issues;
                            let ghost rs = self.results@;
                            let ghost sc = self.scores@;
                            self.results.append(&mut issues);
                            self.scores.push(scores);
                            assert(self.results@ =~= rs + og.issues@);
                            assert(kept_issues(cur) =~= kept_issues(pre) + og.issues@);
                            assert(kept_scores(cur) =~= kept_scores(pre).push(og.scores));
                            assert(skipped_list(cur) =~= skipped_list(pre));
                            match source {
                                Some(s) => self.sources.push(s),
                                None => {},
                            }
                            let ghost b = kept@;
                            let ghost fv = fname@;
                            kept.push(fname);
                            assert(views_of(kept@) =~= views_of(b).push(fv));
                            assert(kept_files(cur) =~= kept_files(pre).push(fv));
                        },
                    }
                },
            }
            i = i + 1;
        }
        assert(all.subrange(0, n as int) =~= all);
        self.files_list = kept;
        self.metrics.aggregate();
        logs
    }

    /// `filter_results(sev, conf)` / `get_issue_list`: the results passing
    /// the thresholds; against a baseline, those matching no baseline issue,
    /// each with the filtered results of the same signature.
    pub fn get_issue_list(&self, sev: Rank, conf: Rank) -> (r: IssueList<'_>)
        ensures
            self.baseline@.len() == 0 ==> r is Plain && derefs(r->Plain_0@) == filtered(self.results@, sev, conf),
            self.baseline@.len() > 0 ==> r is Baseline
                && r->Baseline_0@.map_values(|x: (&Issue, Vec<&Issue>)| *x.0) == unmatched(self.baseline@, filtered(self.results@, sev, conf))
                && forall|i: int| 0 <= i < r->Baseline_0@.len() ==> derefs((#[trigger] r->Baseline_0@[i]).1@)
                    == derefs(candidates(r->Baseline_0@[i].0, filtered_refs(self, sev, conf))),
    {
        let mut results: Vec<&Issue> = Vec::new();
        let mut i: usize = 0;
        while i < self.results.len()
            invariant
                i <= self.results@.len(),
                derefs(results@) == filtered(self.results@.subrange(0, i as int), sev, conf),
                results@ == filtered_refs_upto(self, sev, conf, i as int),
            decreases self.results@.len() - i,
        {
            let ghost t = self.results@.subrange(0, i + 1);
            assert(t.drop_last() =~= self.results@.subrange(0, i as int));
            assert(t.last() == self.results@[i as int]);
            if self.results[i].filter(sev, conf) {
                let ghost b = results@;
                results.push(&self.results[i]);
                assert(derefs(results@) =~= derefs(b).push(self.results@[i as int]));
            } else {
                assert(derefs(results@) =~= derefs(results@) + Seq::<Issue>::empty());
            }
            i = i + 1;
        }
        assert(self.results@.subrange(0, self.results@.len() as int) =~= self.results@);
        if self.baseline.len() == 0 {
            return IssueList::Plain(results);
        }
        let mut fresh: Vec<&Issue> = Vec::new();
        let mut j: usize = 0;
        while j < results.len()
            invariant
                j <= results@.len(),
                derefs(fresh@) == unmatched(self.baseline@, derefs(results@).subrange(0, j as int)),
            decreases results@.len() - j,
        {
            let ghost t = derefs(results@).subrange(0, j + 1);
            assert(t.drop_last() =~= derefs(results@).subrange(0, j as int));
            assert(t.last() == *results@[j as int]);
            let mut hit = false;
            let mut k: usize = 0;
            while k < self.baseline.len()
                invariant
                    k <= self.baseline@.len(),
                    j < results@.len(),
                    hit == exists|m: int| 0 <= m < k && matches_baseline_spec(*results@[j as int], self.baseline@[m]),
                decreases self.baseline@.len() - k,
            {
                if results[j].matches_baseline(&self.baseline[k]) {
                    hit = true;
                }
                k = k + 1;
            }
            if !hit {
                let ghost b = fresh@;
                fresh.push(results[j]);
                assert(derefs(fresh@) =~= derefs(b).push(*results@[j as int]));
            } else {
                assert(derefs(fresh@) =~= derefs(fresh@) + Seq::<Issue>::empty());
            }
            j = j + 1;
        }
        assert(derefs(results@).subrange(0, results@.len() as int) =~= derefs(results@));
        let pairs = find_candidate_matches(fresh.as_slice(), results.as_slice());
        proof {
            assert(pairs@.map_values(|x: (&Issue, Vec<&Issue>)| *x.0) =~= derefs(fresh@));
        }
        IssueList::Baseline(pairs)
    }

    /// `populate_baseline(data)`, once the report's text is parsed
    /// (`parsed`, or the parser's error): the baseline becomes the
    /// report's issues; on an error it is left empty and the warning to
    /// log is returned.
    pub fn populate_baseline(&mut self, parsed: Result<crate::engine::json::JsonValue, String>) -> (r: Option<String>)
        ensures
            match parsed {
                Err(e) => final(self).baseline@.len() == 0 && r is Some
                    && r.unwrap()@ == "Failed to load baseline data: "@ + e@,
                Ok(doc) => match crate::engine::json::baseline_of(doc) {
                    Err(e) => final(self).baseline@.len() == 0 && r is Some
                        && r.unwrap()@ == "Failed to load baseline data: "@ + e,
                    Ok(items) => match crate::engine::json::first_issue_error(items) {
                        Some(e) => final(self).baseline@.len() == 0 && r is Some
                            && r.unwrap()@ == "Failed to load baseline data: "@ + e,
                        None => r is None && final(self).baseline@.len() == items.len() && forall|k: int|
                            0 <= k < items.len() ==> crate::engine::json::loaded_issue(
                                (#[trigger] items[k])->Object_0@,
                                final(self).baseline@[k],
                            ),
                    },
                },
            },
            final(self).results == old(self).results,
            final(self).config == old(self).config,
            final(self).quiet == old(self).quiet,
    {
        self.baseline = Vec::new();
        let loaded = match parsed {
            Err(e) => Err(e),
            Ok(doc) => crate::engine::json::baseline_from_json(&doc),
        };
        match loaded {
            Ok(items) => {
                self.baseline = items;
                None
            },
            Err(e) => {
                let mut m = to_owned_string("Failed to load baseline data: ");
                crate::text::push_str(&mut m, e.as_str());
                Some(m)
            },
        }
    }

    /// The number of issues selected for output.
    pub open spec fn results_count_spec(&self, sev: Rank, conf: Rank) -> nat {
        if self.baseline@.len() == 0 {
            filtered(self.results@, sev, conf).len()
        } else {
            unmatched(self.baseline@, filtered(self.results@, sev, conf)).len()
        }
    }

    /// `results_count(sev, conf)`.
    pub fn results_count(&self, sev: Rank, conf: Rank) -> (r: usize)
        ensures
            r == self.results_count_spec(sev, conf),
    {
        let l = self.get_issue_list(sev, conf);
        let n = l.len();
        proof {
            match l {
                IssueList::Plain(v) => {},
                IssueList::Baseline(v) => {
                    assert(v@.map_values(|x: (&Issue, Vec<&Issue>)| *x.0).len() == v@.len());
                },
            }
        }
        n
    }

    /// `get_skipped()`.
    pub fn get_skipped(&self) -> (r: &Vec<(String, String)>)
        ensures
            r == &self.skipped,
    {
        &self.skipped
    }
}

/// References to the first `n` results that pass the thresholds, in order.
pub open spec fn filtered_refs_upto<'a>(m: &'a Manager, sev: Rank, conf: Rank, n: int) -> Seq<&'a Issue>
    decreases n,
{
    if n <= 0 {
        Seq::empty()
    } else {
        filtered_refs_upto(m, sev, conf, n - 1) + (if passes_filter(m.results@[n - 1], sev, conf) {
            seq![&m.results@[n - 1]]
        } else {
            Seq::empty()
        })
    }
}

/// References to the results that pass the thresholds, in order.
pub open spec fn filtered_refs<'a>(m: &'a Manager, sev: Rank, conf: Rank) -> Seq<&'a Issue> {
    filtered_refs_upto(m, sev, conf, m.results@.len() as int)
}

/// The names of the files kept by a run (scanned to completion), in order.
pub open spec fn kept_files(outcomes: Seq<(String, ScanResult)>) -> Seq<Seq<char>>
    decreases outcomes.len(),
{
    if outcomes.len() == 0 {
        Seq::empty()
    } else {
        kept_files(outcomes.drop_last()) + match outcomes.last().1 {
            ScanResult::Scanned(o) => if o.skipped is None { seq![outcomes.last().0@] } else { Seq::empty() },
            ScanResult::OsError(_) => Seq::empty(),
        }
    }
}

/// Number of files skipped by a run.
pub open spec fn skipped_count(outcomes: Seq<(String, ScanResult)>) -> nat
    decreases outcomes.len(),
{
    if outcomes.len() == 0 {
        0
    } else {
        skipped_count(outcomes.drop_last()) + match outcomes.last().1 {
            ScanResult::Scanned(o) => if o.skipped is None { 0nat } else { 1nat },
            ScanResult::OsError(_) => 1nat,
        }
    }
}

/// The metric entries after storing block `fm` of file `f`.
pub open spec fn record_entry(e: Seq<(Seq<char>, FileMetrics)>, f: Seq<char>, fm: FileMetrics) -> Seq<(Seq<char>, FileMetrics)> {
    match key_position(e, f) {
        Some(i) => e.update(i, (f, fm)),
        None => e.push((f, fm)),
    }
}

/// The metric entries after storing the blocks of every scanned file.
pub open spec fn absorbed_entries(e: Seq<(Seq<char>, FileMetrics)>, outcomes: Seq<(String, ScanResult)>) -> Seq<(Seq<char>, FileMetrics)>
    decreases outcomes.len(),
{
    if outcomes.len() == 0 {
        e
    } else {
        let prev = absorbed_entries(e, outcomes.drop_last());
        match outcomes.last().1 {
            ScanResult::Scanned(o) => record_entry(prev, outcomes.last().0@, o.metrics),
            ScanResult::OsError(_) => prev,
        }
    }
}

/// Name and reason of each skipped file of a run, in order.
pub open spec fn skipped_list(outcomes: Seq<(String, ScanResult)>) -> Seq<(Seq<char>, Seq<char>)>
    decreases outcomes.len(),
{
    if outcomes.len() == 0 {
        Seq::empty()
    } else {
        skipped_list(outcomes.drop_last()) + match outcomes.last().1 {
            ScanResult::Scanned(o) => match o.skipped {
                Some(reason) => seq![(outcomes.last().0@, reason@)],
                None => Seq::empty(),
            },
            ScanResult::OsError(reason) => seq![(outcomes.last().0@, reason@)],
        }
    }
}

/// The issues of the files kept by a run, in file order.
pub open spec fn kept_issues(outcomes: Seq<(String, ScanResult)>) -> Seq<Issue>
    decreases outcomes.len(),
{
    if outcomes.len() == 0 {
        Seq::empty()
    } else {
        kept_issues(outcomes.drop_last()) + match outcomes.last().1 {
            ScanResult::Scanned(o) => if o.skipped is None { o.issues@ } else { Seq::empty() },
            ScanResult::OsError(_) => Seq::empty(),
        }
    }
}

/// The scores of the files kept by a run, in file order.
pub open spec fn kept_scores(outcomes: Seq<(String, ScanResult)>) -> Seq<Scores>
    decreases outcomes.len(),
{
    if outcomes.len() == 0 {
        Seq::empty()
    } else {
        kept_scores(outcomes.drop_last()) + match outcomes.last().1 {
            ScanResult::Scanned(o) => if o.skipped is None { seq![o.scores] } else { Seq::empty() },
            ScanResult::OsError(_) => Seq::empty(),
        }
    }
}

/// The log records of the scanned files, in file order.
pub open spec fn scan_logs(outcomes: Seq<(String, ScanResult)>) -> Seq<Entry>
    decreases outcomes.len(),
{
    if outcomes.len() == 0 {
        Seq::empty()
    } else {
        scan_logs(outcomes.drop_last()) + match outcomes.last().1 {
            ScanResult::Scanned(o) => o.logs@,
            ScanResult::OsError(_) => Seq::empty(),
        }
    }
}

/// The views of pairs of strings.
pub open spec fn pair_views(s: Seq<(String, String)>) -> Seq<(Seq<char>, Seq<char>)> {
    s.map_values(|p: (String, String)| (p.0@, p.1@))
}

/// The views of metric entries.
pub open spec fn entries_view(v: Seq<(String, FileMetrics)>) -> Seq<(Seq<char>, FileMetrics)> {
    v.map_values(|x: (String, FileMetrics)| (x.0@, x.1))
}

fn copy_metrics(fm: &FileMetrics) -> (r: FileMetrics)
    ensures
        r == *fm,
{
    FileMetrics { loc: fm.loc, nosec: fm.nosec, skipped_tests: fm.skipped_tests, issues: fm.issues }
}

/// Counter `k` of a block.
fn counter_value(fm: &FileMetrics, k: usize) -> (r: u64)
    requires
        k < 11,
    ensures
        r as nat == (crate::engine::metrics::counter(k as int))(*fm),
{
    if k == 0 {
        fm.loc
    } else if k == 1 {
        fm.nosec
    } else if k == 2 {
        fm.skipped_tests
    } else {
        match fm.issues {
            Some(a) => a[(k - 3) / 4][(k - 3) % 4],
            None => 0,
        }
    }
}

/// Stores block `fm` of file `f` in the entries `v`, as [`record_entry`].
fn record_in(v: &mut Vec<(String, FileMetrics)>, f: &String, fm: &FileMetrics)
    ensures
        entries_view(final(v)@) == record_entry(entries_view(old(v)@), f@, *fm),
{
    let ghost ev = entries_view(v@);
    let mut j: usize = 0;
    while j < v.len()
        invariant
            ev == entries_view(v@),
            ev == entries_view(old(v)@),
            j <= v@.len(),
            key_position(ev, f@) == crate::engine::metrics::key_position_from(ev, f@, j as int),
        decreases v@.len() - j,
    {
        assert(ev[j as int] == (v@[j as int].0@, v@[j as int].1));
        if str_eq(v[j].0.as_str(), f.as_str()) {
            assert(crate::engine::metrics::key_position_from(ev, f@, j as int) == Some(j as int));
            v.set(j, (copy_string(f), copy_metrics(fm)));
            assert(entries_view(v@) =~= ev.update(j as int, (f@, *fm)));
            assert(record_entry(ev, f@, *fm) == ev.update(j as int, (f@, *fm)));
            return;
        }
        j = j + 1;
    }
    v.push((copy_string(f), copy_metrics(fm)));
    assert(entries_view(v@) =~= ev.push((f@, *fm)));
}

impl Manager {
    /// Whether the totals of a run that absorbs `outcomes` fit their
    /// counters: the condition [`Manager::run_tests`] asks of its caller.
    pub fn totals_fit_for(&self, outcomes: &Vec<(String, ScanResult)>) -> (r: bool)
        ensures
            r == crate::engine::metrics::totals_fit(absorbed_entries(file_entries(self.metrics.files), outcomes@)),
    {
        let ghost fe = file_entries(self.metrics.files);
        let n = crate::engine::metrics::map_len(&self.metrics.files);
        let mut v: Vec<(String, FileMetrics)> = Vec::new();
        let mut i: usize = 0;
        while i < n
            invariant
                n == fe.len(),
                fe == file_entries(self.metrics.files),
                i <= n,
                entries_view(v@) == fe.subrange(0, i as int),
            decreases n - i,
        {
            match crate::engine::metrics::map_get_index(&self.metrics.files, i) {
                Some((name, fm)) => {
                    let ghost before = v@;
                    v.push((copy_string(name), copy_metrics(fm)));
                    assert(fe.subrange(0, i + 1) =~= fe.subrange(0, i as int).push(fe[i as int]));
                    assert(entries_view(v@) =~= entries_view(before).push((name@, *fm)));
                    assert(entries_view(v@) =~= fe.subrange(0, i + 1));
                },
                None => {
                    assert(false);
                },
            }
            i = i + 1;
        }
        assert(fe.subrange(0, n as int) =~= fe);
        let mut k: usize = 0;
        while k < outcomes.len()
            invariant
                k <= outcomes@.len(),
                entries_view(v@) == absorbed_entries(fe, outcomes@.subrange(0, k as int)),
            decreases outcomes@.len() - k,
        {
            let ghost cur = outcomes@.subrange(0, k + 1);
            assert(cur.drop_last() =~= outcomes@.subrange(0, k as int));
            match &outcomes[k].1 {
                ScanResult::Scanned(o) => record_in(&mut v, &outcomes[k].0, &o.metrics),
                ScanResult::OsError(_) => {},
            }
            k = k + 1;
        }
        assert(outcomes@.subrange(0, outcomes@.len() as int) =~= outcomes@);
        let ghost e = entries_view(v@);
        assert(e == absorbed_entries(fe, outcomes@));
        let mut c: usize = 0;
        while c < 11
            invariant
                c <= 11,
                e == entries_view(v@),
                e == absorbed_entries(file_entries(self.metrics.files), outcomes@),
                forall|q: int| 0 <= q < c ==> crate::engine::metrics::field_sum(e, e.len() as int, #[trigger] crate::engine::metrics::counter(q)) <= u64::MAX,
            decreases 11 - c,
        {
            let mut acc: u64 = 0;
            let mut j: usize = 0;
            while j < v.len()
                invariant
                    c < 11,
                    e == entries_view(v@),
                    e == absorbed_entries(file_entries(self.metrics.files), outcomes@),
                    j <= v@.len(),
                    acc as nat == crate::engine::metrics::field_sum(e, j as int, crate::engine::metrics::counter(c as int)),
                decreases v@.len() - j,
            {
                assert(e[j as int].1 == v@[j as int].1);
                let x = counter_value(&v[j].1, c);
                if acc > u64::MAX - x {
                    proof {
                        crate::engine::metrics::lemma_field_sum_monotone(e, j + 1, e.len() as int, crate::engine::metrics::counter(c as int));
                        assert(crate::engine::metrics::field_sum(e, e.len() as int, crate::engine::metrics::counter(c as int)) > u64::MAX);
                    }
                    return false;
                }
                acc = acc + x;
                j = j + 1;
            }
            assert(e.len() == v@.len());
            c = c + 1;
        }
        true
    }
}

} // verus!
