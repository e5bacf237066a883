//! Metric gathering: weighted issue scores, lines of code and the per-file
//! and total counters of a run.

use vstd::prelude::*;
use indexmap::IndexMap;
use crate::constants::{Rank, rank_index, rank_value, rank_at, parse_rank, criteria_name};
use crate::text::{str_eq, find_char};

verus! {

/// Weighted scores accumulated for one file: the `SEVERITY` and
/// `CONFIDENCE` vectors, indexed by rank and weighted by the rank values.
#[derive(Debug, Clone, Copy, PartialEq, Eq, Default)]
pub struct Scores {
    pub severity: [u64; 4],
    pub confidence: [u64; 4],
}

/// The scores of a run in which the issues `notes` (severity, confidence)
/// were reported, in that order.
pub open spec fn score_of(notes: Seq<(Rank, Rank)>, crit: int, i: int) -> nat
    decreases notes.len(),
{
    if notes.len() == 0 {
        0
    } else {
        let last = notes.last();
        let r = if crit == 0 { last.0 } else { last.1 };
        score_of(notes.drop_last(), crit, i) + (if rank_index(r) == i { rank_value(r) } else { 0 })
    }
}

/// Number of issues among `notes` whose rank for criterion `crit` is the
/// rank at index `i`.
pub open spec fn count_of(notes: Seq<(Rank, Rank)>, crit: int, i: int) -> nat
    decreases notes.len(),
{
    if notes.len() == 0 {
        0
    } else {
        let last = notes.last();
        let r = if crit == 0 { last.0 } else { last.1 };
        count_of(notes.drop_last(), crit, i) + (if rank_index(r) == i { 1nat } else { 0 })
    }
}

/// Weight of the rank at index `i`.
pub open spec fn weight(i: int) -> nat {
    rank_value(rank_at(i).unwrap())
}

/// Score entry `i` of criterion `crit` (0 = severity, 1 = confidence).
pub open spec fn score_entry(s: Scores, crit: int, i: int) -> u64 {
    if crit == 0 {
        s.severity@[i]
    } else {
        s.confidence@[i]
    }
}

impl Scores {
    /// Accounts for one reported issue.
    pub fn note(&mut self, severity: Rank, confidence: Rank)
        requires
            old(self).severity@[rank_index(severity) as int] + rank_value(severity) <= u64::MAX,
            old(self).confidence@[rank_index(confidence) as int] + rank_value(confidence) <= u64::MAX,
        ensures
            final(self).severity@ == old(self).severity@.update(
                rank_index(severity) as int,
                (old(self).severity@[rank_index(severity) as int] + rank_value(severity)) as u64,
            ),
            final(self).confidence@ == old(self).confidence@.update(
                rank_index(confidence) as int,
                (old(self).confidence@[rank_index(confidence) as int] + rank_value(confidence)) as u64,
            ),
    {
        let si = severity.index();
        let ci = confidence.index();
        self.severity[si] = self.severity[si] + severity.value();
        self.confidence[ci] = self.confidence[ci] + confidence.value();
    }

    /// Element-wise addition.
    pub fn add(&mut self, other: &Scores)
        requires
            forall|i: int| 0 <= i < 4 ==> old(self).severity@[i] + other.severity@[i] <= u64::MAX,
            forall|i: int| 0 <= i < 4 ==> old(self).confidence@[i] + other.confidence@[i] <= u64::MAX,
        ensures
            forall|i: int| 0 <= i < 4 ==> final(self).severity@[i] == old(self).severity@[i] + other.severity@[i],
            forall|i: int| 0 <= i < 4 ==> final(self).confidence@[i] == old(self).confidence@[i] + other.confidence@[i],
    {
        let mut i: usize = 0;
        while i < 4
            invariant
                i <= 4,
                forall|j: int| 0 <= j < 4 ==> old(self).severity@[j] + other.severity@[j] <= u64::MAX,
                forall|j: int| 0 <= j < 4 ==> old(self).confidence@[j] + other.confidence@[j] <= u64::MAX,
                forall|j: int| 0 <= j < i ==> self.severity@[j] == old(self).severity@[j] + other.severity@[j],
                forall|j: int| 0 <= j < i ==> self.confidence@[j] == old(self).confidence@[j] + other.confidence@[j],
                forall|j: int| i <= j < 4 ==> self.severity@[j] == old(self).severity@[j],
                forall|j: int| i <= j < 4 ==> self.confidence@[j] == old(self).confidence@[j],
            decreases 4 - i,
        {
            self.severity[i] = self.severity[i] + other.severity[i];
            self.confidence[i] = self.confidence[i] + other.confidence[i];
            i = i + 1;
        }
    }

    /// Issue counts per criterion and rank: each score divided by the
    /// weight of its rank.
    pub fn issue_counts(&self) -> (r: [[u64; 4]; 2])
        ensures
            forall|c: int, i: int| 0 <= c < 2 && 0 <= i < 4 ==>
                (#[trigger] r@[c]@[i]) == score_entry(*self, c, i) as nat / weight(i),
    {
        let mut sev: [u64; 4] = [0u64; 4];
        let mut conf: [u64; 4] = [0u64; 4];
        let mut i: usize = 0;
        while i < 4
            invariant
                i <= 4,
                forall|j: int| 0 <= j < i ==> sev@[j] == self.severity@[j] as nat / weight(j),
                forall|j: int| 0 <= j < i ==> conf@[j] == self.confidence@[j] as nat / weight(j),
            decreases 4 - i,
        {
            let w = match Rank::from_index(i) {
                Some(rank) => rank.value(),
                None => 1,
            };
            sev[i] = self.severity[i] / w;
            conf[i] = self.confidence[i] / w;
            i = i + 1;
        }
        [sev, conf]
    }

    /// Sum of the severity vector.
    pub fn severity_total(&self) -> (r: u64)
        requires
            self.severity@[0] + self.severity@[1] + self.severity@[2] + self.severity@[3] <= u64::MAX,
        ensures
            r == self.severity@[0] + self.severity@[1] + self.severity@[2] + self.severity@[3],
    {
        self.severity[0] + self.severity[1] + self.severity[2] + self.severity[3]
    }

    /// Sum of the confidence vector.
    pub fn confidence_total(&self) -> (r: u64)
        requires
            self.confidence@[0] + self.confidence@[1] + self.confidence@[2] + self.confidence@[3] <= u64::MAX,
        ensures
            r == self.confidence@[0] + self.confidence@[1] + self.confidence@[2] + self.confidence@[3],
    {
        self.confidence[0] + self.confidence[1] + self.confidence[2] + self.confidence[3]
    }
}

/// Scores start at zero and every note adds the weight of its ranks: after
/// the notes `notes`, each score is the weighted count of its rank, so
/// dividing by the weight gives back the number of issues of that rank.
pub proof fn lemma_scores_count_issues(notes: Seq<(Rank, Rank)>, crit: int, i: int)
    requires
        0 <= crit < 2,
        0 <= i < 4,
    ensures
        score_of(notes, crit, i) == count_of(notes, crit, i) * weight(i),
        score_of(notes, crit, i) / weight(i) == count_of(notes, crit, i),
    decreases notes.len(),
{
    let w = weight(i);
    assert(w > 0);
    if notes.len() > 0 {
        lemma_scores_count_issues(notes.drop_last(), crit, i);
        let last = notes.last();
        let r = if crit == 0 { last.0 } else { last.1 };
        let c0 = count_of(notes.drop_last(), crit, i);
        let s0 = score_of(notes.drop_last(), crit, i);
        assert(s0 == c0 * w);
        if rank_index(r) == i {
            assert(rank_value(r) == w);
            assert(score_of(notes, crit, i) == s0 + w);
            assert(count_of(notes, crit, i) == c0 + 1);
            assert((c0 + 1) * w == c0 * w + w) by (nonlinear_arith);
        } else {
            assert(score_of(notes, crit, i) == s0);
            assert(count_of(notes, crit, i) == c0);
        }
    }
    let c = count_of(notes, crit, i);
    if notes.len() == 0 {
        assert(c == 0);
        assert(0 * w == 0);
    }
    assert(score_of(notes, crit, i) == c * w);
    assert((c * w) / w == c) by (nonlinear_arith)
        requires
            w > 0,
    ;
}

/// `note` accumulates exactly `score_of`: a note on scores that equal the
/// scores of `notes` gives the scores of `notes` followed by that note.
pub proof fn lemma_note_extends(notes: Seq<(Rank, Rank)>, s: Scores, t: Scores, sev: Rank, conf: Rank)
    requires
        forall|c: int, i: int| 0 <= c < 2 && 0 <= i < 4 ==> score_entry(s, c, i) == score_of(notes, c, i),
        t.severity@ == s.severity@.update(rank_index(sev) as int, (s.severity@[rank_index(sev) as int] + rank_value(sev)) as u64),
        t.confidence@ == s.confidence@.update(rank_index(conf) as int, (s.confidence@[rank_index(conf) as int] + rank_value(conf)) as u64),
        s.severity@[rank_index(sev) as int] + rank_value(sev) <= u64::MAX,
        s.confidence@[rank_index(conf) as int] + rank_value(conf) <= u64::MAX,
    ensures
        forall|c: int, i: int| 0 <= c < 2 && 0 <= i < 4 ==> score_entry(t, c, i) == score_of(notes.push((sev, conf)), c, i),
{
    let n2 = notes.push((sev, conf));
    assert(n2.drop_last() =~= notes);
    assert(n2.last() == (sev, conf));
    assert forall|c: int, i: int| 0 <= c < 2 && 0 <= i < 4 implies score_entry(t, c, i) == score_of(n2, c, i) by {
        assert(score_entry(s, c, i) == score_of(notes, c, i));
        if c == 0 {
            assert(score_of(n2, 0, i) == score_of(notes, 0, i) + (if rank_index(sev) == i { rank_value(sev) } else { 0 }));
            assert(t.severity@[i] == s.severity@[i] + (if rank_index(sev) == i { rank_value(sev) } else { 0 }));
        } else {
            assert(score_of(n2, c, i) == score_of(notes, c, i) + (if rank_index(conf) == i { rank_value(conf) } else { 0 }));
            assert(t.confidence@[i] == s.confidence@[i] + (if rank_index(conf) == i { rank_value(conf) } else { 0 }));
        }
    }
}

/// Metrics of a single file (or the totals).
#[derive(Debug, Clone, PartialEq, Eq, Default)]
pub struct FileMetrics {
    pub loc: u64,
    pub nosec: u64,
    pub skipped_tests: u64,
    /// `[SEVERITY counts, CONFIDENCE counts]`, absent for files whose scan
    /// did not complete.
    pub issues: Option<[[u64; 4]; 2]>,
}

/// ASCII blanks other than line breaks (`bytes.strip` strips these and the
/// line breaks).
pub open spec fn is_blank(b: u8) -> bool {
    b == 32 || b == 9 || b == 11 || b == 12
}

/// Lines of code in `d`: the lines (split at every `\n` and `\r`) whose
/// first non-blank byte exists and is not `#`. `decided` says whether the
/// first non-blank byte of the current line has been seen.
pub open spec fn locs_from(d: Seq<u8>, decided: bool) -> nat
    decreases d.len(),
{
    if d.len() == 0 {
        0
    } else {
        let b = d[0];
        if b == 10 || b == 13 {
            locs_from(d.skip(1), false)
        } else if decided || is_blank(b) {
            locs_from(d.skip(1), decided)
        } else {
            (if b == 35 { 0nat } else { 1nat }) + locs_from(d.skip(1), true)
        }
    }
}

/// Lines of code of a file's bytes.
pub open spec fn loc_count(d: Seq<u8>) -> nat {
    locs_from(d, false)
}

/// Issue count `c`, `r` of a metrics block (zero when absent).
pub open spec fn issue_count(fm: FileMetrics, c: int, r: int) -> nat {
    match fm.issues {
        Some(a) => a@[c]@[r] as nat,
        None => 0,
    }
}

/// Position of a criterion name in `CRITERIA`.
pub open spec fn criteria_index(s: Seq<char>) -> Option<int> {
    if s == criteria_name(0) {
        Some(0)
    } else if s == criteria_name(1) {
        Some(1)
    } else {
        None
    }
}

/// Value of a metric label (`loc`, `nosec`, `skipped_tests`,
/// `<CRITERION>.<RANK>`).
pub open spec fn metric_value(fm: FileMetrics, label: Seq<char>) -> Option<u64> {
    if label == "loc"@ {
        Some(fm.loc)
    } else if label == "nosec"@ {
        Some(fm.nosec)
    } else if label == "skipped_tests"@ {
        Some(fm.skipped_tests)
    } else if !label.contains('.') {
        None
    } else {
        let k = choose|k: int| 0 <= k < label.len() && label[k] == '.' && forall|j: int| 0 <= j < k ==> label[j] != '.';
        match (criteria_index(label.subrange(0, k)), parse_rank(label.skip(k + 1)), fm.issues) {
            (Some(c), Some(r), Some(a)) => Some(a@[c]@[rank_index(r) as int]),
            _ => None,
        }
    }
}

impl FileMetrics {
    /// Adds the lines of code of `data`: lines whose first non-blank byte
    /// is not `#`.
    pub fn count_locs(&mut self, data: &[u8])
        requires
            old(self).loc + loc_count(data@) <= u64::MAX,
        ensures
            final(self).loc == old(self).loc + loc_count(data@),
            final(self).nosec == old(self).nosec,
            final(self).skipped_tests == old(self).skipped_tests,
            final(self).issues == old(self).issues,
    {
        let n = data.len();
        let mut i: usize = 0;
        let mut decided = false;
        let mut count: u64 = 0;
        assert(data@.skip(0) =~= data@);
        while i < n
            invariant
                n == data@.len(),
                i <= n,
                count + locs_from(data@.skip(i as int), decided) == loc_count(data@),
                old(self).loc + loc_count(data@) <= u64::MAX,
            decreases n - i,
        {
            let b = data[i];
            assert(data@.skip(i as int).skip(1) =~= data@.skip(i + 1));
            if b == 10 || b == 13 {
                decided = false;
            } else if decided || b == 32 || b == 9 || b == 11 || b == 12 {
            } else {
                if b != 35 {
                    count = count + 1;
                }
                decided = true;
            }
            i = i + 1;
        }
        self.loc = self.loc + count;
    }

    /// Records the issue counts of a completed scan.
    pub fn count_issues(&mut self, scores: &Scores)
        ensures
            final(self).issues is Some,
            forall|c: int, i: int| 0 <= c < 2 && 0 <= i < 4 ==>
                #[trigger] final(self).issues.unwrap()@[c]@[i] == score_entry(*scores, c, i) as nat / weight(i),
            final(self).loc == old(self).loc,
            final(self).nosec == old(self).nosec,
            final(self).skipped_tests == old(self).skipped_tests,
    {
        self.issues = Some(scores.issue_counts());
    }

    /// Value of a metric label (`loc`, `nosec`, `skipped_tests`,
    /// `SEVERITY.LOW`, ...).
    pub fn get(&self, label: &str) -> (r: Option<u64>)
        ensures
            r == metric_value(*self, label@),
    {
        if str_eq(label, "loc") {
            return Some(self.loc);
        }
        if str_eq(label, "nosec") {
            return Some(self.nosec);
        }
        if str_eq(label, "skipped_tests") {
            return Some(self.skipped_tests);
        }
        match find_char(label, '.') {
            None => None,
            Some(k) => {
                let ghost kk = choose|k: int| 0 <= k < label@.len() && label@[k] == '.' && forall|j: int| 0 <= j < k ==> label@[j] != '.';
                assert(kk == k as int) by {
                    if kk < k {
                        assert(label@[kk] != '.');
                    }
                    if k < kk {
                        assert(label@[k as int] != '.');
                    }
                }
                let n = label.unicode_len();
                let criteria = label.substring_char(0, k);
                let rank = label.substring_char(k + 1, n);
                assert(rank@ =~= label@.skip(k + 1));
                let c: usize = if str_eq(criteria, "SEVERITY") {
                    0
                } else if str_eq(criteria, "CONFIDENCE") {
                    1
                } else {
                    return None;
                };
                match (Rank::parse(rank), &self.issues) {
                    (Some(r), Some(a)) => Some(a[c][r.index()]),
                    _ => None,
                }
            },
        }
    }
}

/// The per-file metric blocks of a run, in scan order (an `IndexMap`).
#[verifier::external_type_specification]
#[verifier::external_body]
#[verifier::reject_recursive_types(K)]
#[verifier::reject_recursive_types(V)]
#[verifier::reject_recursive_types(S)]
pub struct ExIndexMap<K, V, S>(IndexMap<K, V, S>);

/// The entries of a map of metric blocks: file name and block, in the
/// map's order.
pub uninterp spec fn file_entries(m: IndexMap<String, FileMetrics>) -> Seq<(Seq<char>, FileMetrics)>;

/// The first position at or after `j` of key `k` in `e`, if any.
pub open spec fn key_position_from(e: Seq<(Seq<char>, FileMetrics)>, k: Seq<char>, j: int) -> Option<int>
    decreases e.len() - j,
{
    if j < 0 || j >= e.len() {
        None
    } else if e[j].0 == k {
        Some(j)
    } else {
        key_position_from(e, k, j + 1)
    }
}

/// The position of key `k` in `e`, if any.
pub open spec fn key_position(e: Seq<(Seq<char>, FileMetrics)>, k: Seq<char>) -> Option<int> {
    key_position_from(e, k, 0)
}

pub(crate) proof fn lemma_key_position_from(e: Seq<(Seq<char>, FileMetrics)>, k: Seq<char>, j: int)
    ensures
        key_position_from(e, k, j) matches Some(i) ==> 0 <= j <= i < e.len() && e[i].0 == k,
    decreases e.len() - j,
{
    if 0 <= j < e.len() && e[j].0 != k {
        lemma_key_position_from(e, k, j + 1);
    }
}

/// `IndexMap::new`: a map with no entry.
#[verifier::external_body]
fn map_new() -> (r: IndexMap<String, FileMetrics>)
    ensures
        file_entries(r) == Seq::<(Seq<char>, FileMetrics)>::empty(),
{
    IndexMap::new()
}

/// `IndexMap::len`.
#[verifier::external_body]
pub(crate) fn map_len(m: &IndexMap<String, FileMetrics>) -> (r: usize)
    ensures
        r == file_entries(*m).len(),
{
    m.len()
}

/// `IndexMap::insert_full`: an existing key keeps its place and takes the
/// new value; a new key goes last. Returns the position of the key.
#[verifier::external_body]
fn map_insert(m: &mut IndexMap<String, FileMetrics>, k: String, v: FileMetrics) -> (r: usize)
    ensures
        match key_position(file_entries(*old(m)), k@) {
            Some(i) => r == i && file_entries(*final(m)) == file_entries(*old(m)).update(i, (k@, v)),
            None => r == file_entries(*old(m)).len()
                && file_entries(*final(m)) == file_entries(*old(m)).push((k@, v)),
        },
{
    m.insert_full(k, v).0
}

/// `IndexMap::get_index`: the key and block at position `i`, if any.
#[verifier::external_body]
pub(crate) fn map_get_index(m: &IndexMap<String, FileMetrics>, i: usize) -> (r: Option<(&String, &FileMetrics)>)
    ensures
        i < file_entries(*m).len() ==> r is Some && r.unwrap().0@ == file_entries(*m)[i as int].0
            && *r.unwrap().1 == file_entries(*m)[i as int].1,
        i >= file_entries(*m).len() ==> r is None,
{
    m.get_index(i)
}

/// `&mut map[i]`: the block at position `i`, to be changed in place.
#[verifier::external_body]
fn map_value_at_mut(m: &mut IndexMap<String, FileMetrics>, i: usize) -> (r: &mut FileMetrics)
    requires
        i < file_entries(*old(m)).len(),
    ensures
        *r == file_entries(*old(m))[i as int].1,
        file_entries(*final(m)) == file_entries(*old(m)).update(
            i as int,
            (file_entries(*old(m))[i as int].0, *final(r)),
        ),
{
    &mut m[i]
}

/// Sum of a field over the first `n` entries.
pub open spec fn field_sum(e: Seq<(Seq<char>, FileMetrics)>, n: int, f: spec_fn(FileMetrics) -> nat) -> nat
    decreases n,
{
    if n <= 0 {
        0
    } else {
        field_sum(e, n - 1, f) + f(e[n - 1].1)
    }
}

pub(crate) proof fn lemma_field_sum_monotone(e: Seq<(Seq<char>, FileMetrics)>, a: int, b: int, f: spec_fn(FileMetrics) -> nat)
    requires
        a <= b,
    ensures
        field_sum(e, a, f) <= field_sum(e, b, f),
    decreases b - a,
{
    if a < b {
        lemma_field_sum_monotone(e, a, b - 1, f);
    }
}

/// The eleven counters of a metrics block: `loc`, `nosec`,
/// `skipped_tests`, then the eight issue counts.
pub open spec fn counter(k: int) -> spec_fn(FileMetrics) -> nat {
    if k == 0 {
        |fm: FileMetrics| fm.loc as nat
    } else if k == 1 {
        |fm: FileMetrics| fm.nosec as nat
    } else if k == 2 {
        |fm: FileMetrics| fm.skipped_tests as nat
    } else {
        |fm: FileMetrics| issue_count(fm, (k - 3) / 4, (k - 3) % 4)
    }
}

/// All metrics of a run.
#[derive(Debug)]
pub struct Metrics {
    pub files: IndexMap<String, FileMetrics>,
    pub totals: FileMetrics,
}

/// The totals of the blocks `e` fit in 64 bits.
pub open spec fn totals_fit(e: Seq<(Seq<char>, FileMetrics)>) -> bool {
    forall|k: int| 0 <= k < 11 ==> field_sum(e, e.len() as int, #[trigger] counter(k)) <= u64::MAX
}

impl Metrics {
    /// No file yet; totals at zero with issue counts.
    pub fn new() -> (r: Metrics)
        ensures
            file_entries(r.files) == Seq::<(Seq<char>, FileMetrics)>::empty(),
            r.totals.loc == 0 && r.totals.nosec == 0 && r.totals.skipped_tests == 0,
            r.totals.issues is Some,
            forall|c: int, i: int| 0 <= c < 2 && 0 <= i < 4 ==> #[trigger] r.totals.issues.unwrap()@[c]@[i] == 0,
    {
        Metrics {
            files: map_new(),
            totals: FileMetrics { loc: 0, nosec: 0, skipped_tests: 0, issues: Some([[0u64, 0, 0, 0], [0u64, 0, 0, 0]]) },
        }
    }

    /// Starts (or restarts) the metric block of `fname`, and hands it out.
    pub fn begin(&mut self, fname: &str) -> (r: &mut FileMetrics)
        ensures
            *r == FileMetrics::default_spec(),
            match key_position(file_entries(old(self).files), fname@) {
                Some(i) => file_entries(final(self).files) == file_entries(old(self).files).update(i, (fname@, *final(r))),
                None => file_entries(final(self).files) == file_entries(old(self).files).push((fname@, *final(r))),
            },
            final(self).totals == old(self).totals,
    {
        proof {
            lemma_key_position_from(file_entries(self.files), fname@, 0);
        }
        let ghost before = file_entries(self.files);
        let i = map_insert(&mut self.files, String::from_str(fname), FileMetrics::blank());
        let ghost mid = file_entries(self.files);
        let r = map_value_at_mut(&mut self.files, i);
        proof {
            match key_position(before, fname@) {
                Some(j) => {
                    assert(mid.update(j, (fname@, *final(r))) =~= before.update(j, (fname@, *final(r))));
                },
                None => {
                    assert(mid.update(i as int, (fname@, *final(r))) =~= before.push((fname@, *final(r))));
                },
            }
        }
        r
    }

    /// Stores a completed metric block.
    pub fn insert(&mut self, fname: &str, metrics: FileMetrics)
        ensures
            match key_position(file_entries(old(self).files), fname@) {
                Some(i) => file_entries(final(self).files) == file_entries(old(self).files).update(i, (fname@, metrics)),
                None => file_entries(final(self).files) == file_entries(old(self).files).push((fname@, metrics)),
            },
            final(self).totals == old(self).totals,
    {
        map_insert(&mut self.files, String::from_str(fname), metrics);
    }

    /// Recomputes the totals from the per-file blocks: each counter of the
    /// totals is the sum of that counter over the files.
    pub fn aggregate(&mut self)
        requires
            totals_fit(file_entries(old(self).files)),
        ensures
            file_entries(final(self).files) == file_entries(old(self).files),
            final(self).totals.issues is Some,
            forall|k: int| 0 <= k < 11 ==> (#[trigger] counter(k))(final(self).totals)
                == field_sum(file_entries(old(self).files), file_entries(old(self).files).len() as int, counter(k)),
    {
        let ghost e = file_entries(self.files);
        let n = map_len(&self.files);
        let mut loc: u64 = 0;
        let mut nosec: u64 = 0;
        let mut skipped: u64 = 0;
        let mut counts: [[u64; 4]; 2] = [[0u64, 0, 0, 0], [0u64, 0, 0, 0]];
        let mut i: usize = 0;
        while i < n
            invariant
                n == e.len(),
                e == file_entries(self.files),
                i <= n,
                totals_fit(e),
                loc == field_sum(e, i as int, counter(0)),
                nosec == field_sum(e, i as int, counter(1)),
                skipped == field_sum(e, i as int, counter(2)),
                forall|c: int, r: int| 0 <= c < 2 && 0 <= r < 4 ==>
                    #[trigger] counts@[c]@[r] == field_sum(e, i as int, counter(3 + 4 * c + r)),
            decreases n - i,
        {
            let fm = match map_get_index(&self.files, i) {
                Some(p) => p.1,
                None => {
                    return;
                },
            };
            proof {
                assert forall|k: int| 0 <= k < 11 implies field_sum(e, i + 1, #[trigger] counter(k)) <= u64::MAX by {
                    lemma_field_sum_monotone(e, i + 1, n as int, counter(k));
                }
                assert(field_sum(e, i + 1, counter(0)) <= u64::MAX);
                assert(field_sum(e, i + 1, counter(1)) <= u64::MAX);
                assert(field_sum(e, i + 1, counter(2)) <= u64::MAX);
            }
            loc = loc + fm.loc;
            nosec = nosec + fm.nosec;
            skipped = skipped + fm.skipped_tests;
            match &fm.issues {
                Some(a) => {
                    let ghost before = counts;
                    let mut c: usize = 0;
                    while c < 2
                        invariant
                            c <= 2,
                            *fm == e[i as int].1,
                            fm.issues == Some(*a),
                            i < n,
                            n == e.len(),
                            totals_fit(e),
                            forall|cc: int, r: int| 0 <= cc < 2 && 0 <= r < 4 ==>
                                #[trigger] before@[cc]@[r] == field_sum(e, i as int, counter(3 + 4 * cc + r)),
                            forall|cc: int, r: int| 0 <= cc < c && 0 <= r < 4 ==>
                                #[trigger] counts@[cc]@[r] == field_sum(e, i + 1, counter(3 + 4 * cc + r)),
                            forall|cc: int, r: int| c <= cc < 2 && 0 <= r < 4 ==>
                                #[trigger] counts@[cc]@[r] == before@[cc]@[r],
                        decreases 2 - c,
                    {
                        let mut row = counts[c];
                        let mut r: usize = 0;
                        while r < 4
                            invariant
                                c < 2,
                                r <= 4,
                                *fm == e[i as int].1,
                                fm.issues == Some(*a),
                                i < n,
                                n == e.len(),
                                totals_fit(e),
                                forall|rr: int| 0 <= rr < 4 ==>
                                    #[trigger] before@[c as int]@[rr] == field_sum(e, i as int, counter(3 + 4 * c + rr)),
                                forall|rr: int| 0 <= rr < r ==>
                                    #[trigger] row@[rr] == field_sum(e, i + 1, counter(3 + 4 * c + rr)),
                                forall|rr: int| r <= rr < 4 ==>
                                    #[trigger] row@[rr] == before@[c as int]@[rr],
                            decreases 4 - r,
                        {
                            proof {
                                let k = 3 + 4 * c + r;
                                assert(0 <= k < 11);
                                assert((k - 3) / 4 == c && (k - 3) % 4 == r);
                                assert(counter(k)(e[i as int].1) == a@[c as int]@[r as int]);
                                lemma_field_sum_monotone(e, i + 1, n as int, counter(k));
                                assert(field_sum(e, i + 1, counter(k)) <= u64::MAX);
                            }
                            row[r] = row[r] + a[c][r];
                            r = r + 1;
                        }
                        counts[c] = row;
                        c = c + 1;
                    }
                },
                None => {
                    proof {
                        assert forall|c: int, r: int| 0 <= c < 2 && 0 <= r < 4 implies
                            #[trigger] counts@[c]@[r] == field_sum(e, i + 1, counter(3 + 4 * c + r)) by {
                            let k = 3 + 4 * c + r;
                            assert((k - 3) / 4 == c && (k - 3) % 4 == r);
                            assert(counter(k)(e[i as int].1) == 0);
                        }
                    }
                },
            }
            i = i + 1;
        }
        self.totals = FileMetrics { loc, nosec, skipped_tests: skipped, issues: Some(counts) };
        proof {
            assert forall|k: int| 0 <= k < 11 implies (#[trigger] counter(k))(self.totals)
                == field_sum(e, e.len() as int, counter(k)) by {
                if k >= 3 {
                    let c = (k - 3) / 4;
                    let r = (k - 3) % 4;
                    assert(k == 3 + 4 * c + r);
                    assert(counts@[c]@[r] == field_sum(e, n as int, counter(3 + 4 * c + r)));
                }
            }
        }
    }
}

impl FileMetrics {
    /// The all-zero block with no issue counts.
    pub open spec fn default_spec() -> FileMetrics {
        FileMetrics { loc: 0, nosec: 0, skipped_tests: 0, issues: None }
    }

    /// The all-zero block with no issue counts.
    pub fn blank() -> (r: FileMetrics)
        ensures
            r == FileMetrics::default_spec(),
    {
        FileMetrics { loc: 0, nosec: 0, skipped_tests: 0, issues: None }
    }
}

/// The key of count `r` (rank index) of criterion `c`: `SEVERITY.HIGH`.
pub open spec fn metric_key(c: int, r: int) -> Seq<char> {
    criteria_name(c) + "."@ + crate::constants::rank_name(rank_at(r).unwrap())
}

/// The counts of a block, zero when it has none.
pub open spec fn counts_or_zero(fm: FileMetrics) -> [[u64; 4]; 2] {
    match fm.issues {
        Some(a) => a,
        None => [[0u64, 0, 0, 0], [0u64, 0, 0, 0]],
    }
}

/// A file's block as JSON: `loc`, `nosec`, `skipped_tests`, then (when
/// the file was scanned) the counts by criterion, then rank.
pub open spec fn file_json(fm: FileMetrics, v: crate::engine::json::JsonValue) -> bool {
    use_type_json(fm, v) && (match fm.issues {
        Some(a) => v->Object_0@.len() == 11 && forall|k: int| 0 <= k < 8 ==> {
            &&& #[trigger] crate::engine::json::key_at(v, 3 + k) == metric_key(k / 4, k % 4)
            &&& crate::engine::json::val_at(v, 3 + k) == crate::engine::json::uint(a[k / 4][k % 4])
        },
        None => v->Object_0@.len() == 3,
    })
}

/// The first three entries of a block as JSON.
pub open spec fn use_type_json(fm: FileMetrics, v: crate::engine::json::JsonValue) -> bool {
    &&& v is Object
    &&& v->Object_0@.len() >= 3
    &&& crate::engine::json::key_at(v, 0) == "loc"@ && crate::engine::json::val_at(v, 0) == crate::engine::json::uint(fm.loc)
    &&& crate::engine::json::key_at(v, 1) == "nosec"@ && crate::engine::json::val_at(v, 1) == crate::engine::json::uint(fm.nosec)
    &&& crate::engine::json::key_at(v, 2) == "skipped_tests"@
        && crate::engine::json::val_at(v, 2) == crate::engine::json::uint(fm.skipped_tests)
}

/// The totals as JSON: like a block, with the counts by rank, then
/// criterion (zero when not totalled).
pub open spec fn totals_json(fm: FileMetrics, v: crate::engine::json::JsonValue) -> bool {
    use_type_json(fm, v) && v->Object_0@.len() == 11 && forall|k: int| 0 <= k < 8 ==> {
        &&& #[trigger] crate::engine::json::key_at(v, 3 + k) == metric_key(k % 2, k / 2)
        &&& crate::engine::json::val_at(v, 3 + k) == crate::engine::json::uint(counts_or_zero(fm)[k % 2][k / 2])
    }
}

fn metric_key_text(c: usize, r: usize) -> (s: String)
    requires
        c < 2,
        r < 4,
    ensures
        s@ == metric_key(c as int, r as int),
{
    let cs = crate::constants::criteria();
    let rs = crate::constants::ranking();
    let mut s = crate::text::to_owned_string(cs[c]);
    crate::text::push_str(&mut s, ".");
    crate::text::push_str(&mut s, rs[r]);
    proof {
        if c == 0 {
            assert(cs@[0]@ == criteria_name(0));
        } else {
            assert(cs@[1]@ == criteria_name(1));
        }
        assert(rs@[r as int]@ == crate::constants::rank_name(rank_at(r as int).unwrap()));
    }
    s
}

fn block_head(fm: &FileMetrics) -> (e: Vec<(String, crate::engine::json::JsonValue)>)
    ensures
        use_type_json(*fm, crate::engine::json::JsonValue::Object(e)),
        e@.len() == 3,
{
    let mut e: Vec<(String, crate::engine::json::JsonValue)> = Vec::new();
    e.push((crate::text::to_owned_string("loc"), crate::engine::json::JsonValue::Number(crate::engine::json::JsonNumber::PosInt(fm.loc))));
    e.push((crate::text::to_owned_string("nosec"), crate::engine::json::JsonValue::Number(crate::engine::json::JsonNumber::PosInt(fm.nosec))));
    e.push((crate::text::to_owned_string("skipped_tests"), crate::engine::json::JsonValue::Number(crate::engine::json::JsonNumber::PosInt(fm.skipped_tests))));
    e
}

impl FileMetrics {
    /// The block of a file as JSON.
    pub fn to_json_file(&self) -> (r: crate::engine::json::JsonValue)
        ensures
            file_json(*self, r),
    {
        let mut e = block_head(self);
        match &self.issues {
            Some(a) => {
                let mut k: usize = 0;
                while k < 8
                    invariant
                        k <= 8,
                        self.issues == Some(*a),
                        e@.len() == 3 + k,
                        use_type_json(*self, crate::engine::json::JsonValue::Object(e)),
                        forall|j: int| 0 <= j < k ==> {
                            &&& (#[trigger] e@[3 + j]).0@ == metric_key(j / 4, j % 4)
                            &&& e@[3 + j].1 == crate::engine::json::uint(a[j / 4][j % 4])
                        },
                    decreases 8 - k,
                {
                    let key = metric_key_text(k / 4, k % 4);
                    let ghost before = e@;
                    e.push((key, crate::engine::json::JsonValue::Number(crate::engine::json::JsonNumber::PosInt(a[k / 4][k % 4]))));
                    assert(forall|j: int| 0 <= j < e@.len() - 1 ==> e@[j] == before[j]);
                    k = k + 1;
                }
            },
            None => {},
        }
        let r = crate::engine::json::JsonValue::Object(e);
        assert forall|j: int| 0 <= j < 8 && self.issues is Some implies {
            &&& #[trigger] crate::engine::json::key_at(r, 3 + j) == metric_key(j / 4, j % 4)
            &&& crate::engine::json::val_at(r, 3 + j) == crate::engine::json::uint(self.issues.unwrap()[j / 4][j % 4])
        } by {
            assert(e@[3 + j] == r->Object_0@[3 + j]);
        }
        r
    }

    /// The totals as JSON.
    pub fn to_json_totals(&self) -> (r: crate::engine::json::JsonValue)
        ensures
            totals_json(*self, r),
    {
        let mut e = block_head(self);
        let counts: [[u64; 4]; 2] = match &self.issues {
            Some(a) => *a,
            None => [[0u64, 0, 0, 0], [0u64, 0, 0, 0]],
        };
        assert(counts == counts_or_zero(*self));
        let mut k: usize = 0;
        while k < 8
            invariant
                k <= 8,
                counts == counts_or_zero(*self),
                e@.len() == 3 + k,
                use_type_json(*self, crate::engine::json::JsonValue::Object(e)),
                forall|j: int| 0 <= j < k ==> {
                    &&& (#[trigger] e@[3 + j]).0@ == metric_key(j % 2, j / 2)
                    &&& e@[3 + j].1 == crate::engine::json::uint(counts[j % 2][j / 2])
                },
            decreases 8 - k,
        {
            let key = metric_key_text(k % 2, k / 2);
            let ghost before = e@;
            e.push((key, crate::engine::json::JsonValue::Number(crate::engine::json::JsonNumber::PosInt(counts[k % 2][k / 2]))));
            assert(forall|j: int| 0 <= j < e@.len() - 1 ==> e@[j] == before[j]);
            k = k + 1;
        }
        let r = crate::engine::json::JsonValue::Object(e);
        assert forall|j: int| 0 <= j < 8 implies {
            &&& #[trigger] crate::engine::json::key_at(r, 3 + j) == metric_key(j % 2, j / 2)
            &&& crate::engine::json::val_at(r, 3 + j) == crate::engine::json::uint(counts_or_zero(*self)[j % 2][j / 2])
        } by {
            assert(e@[3 + j] == r->Object_0@[3 + j]);
        }
        r
    }
}

/// The blocks of the files other than one named `_totals`, in order.
pub open spec fn named_files(e: Seq<(Seq<char>, FileMetrics)>) -> Seq<(Seq<char>, FileMetrics)>
    decreases e.len(),
{
    if e.len() == 0 {
        Seq::empty()
    } else {
        named_files(e.drop_last()) + if e.last().0 == "_totals"@ { Seq::empty() } else { seq![e.last()] }
    }
}

/// The last position of a file named `_totals`, if any.
pub open spec fn totals_named(e: Seq<(Seq<char>, FileMetrics)>) -> Option<int>
    decreases e.len(),
{
    if e.len() == 0 {
        None
    } else if e.last().0 == "_totals"@ {
        Some(e.len() - 1)
    } else {
        totals_named(e.drop_last())
    }
}

/// `metrics.data` as JSON: `_totals` first, then each file's block in
/// order (a file named `_totals` takes the place of the totals).
pub open spec fn metrics_json(m: Metrics, r: crate::engine::json::JsonValue) -> bool {
    &&& r is Object
    &&& r->Object_0@.len() >= 1
    &&& crate::engine::json::key_at(r, 0) == "_totals"@
    &&& match totals_named(file_entries(m.files)) {
        Some(j) => file_json(file_entries(m.files)[j].1, crate::engine::json::val_at(r, 0)),
        None => totals_json(m.totals, crate::engine::json::val_at(r, 0)),
    }
    &&& r->Object_0@.len() == 1 + named_files(file_entries(m.files)).len()
    &&& forall|k: int| 0 <= k < named_files(file_entries(m.files)).len() ==> {
        &&& #[trigger] crate::engine::json::key_at(r, k + 1) == named_files(file_entries(m.files))[k].0
        &&& file_json(named_files(file_entries(m.files))[k].1, crate::engine::json::val_at(r, k + 1))
    }
}

impl Metrics {
    /// `to_json()`: `_totals` first, then each file's block in order (a
    /// file named `_totals` takes the place of the totals).
    pub fn to_json(&self) -> (r: crate::engine::json::JsonValue)
        ensures
            metrics_json(*self, r),
    {
        let ghost fe = file_entries(self.files);
        let mut e: Vec<(String, crate::engine::json::JsonValue)> = Vec::new();
        e.push((crate::text::to_owned_string("_totals"), self.totals.to_json_totals()));
        let n = map_len(&self.files);
        let mut i: usize = 0;
        while i < n
            invariant
                n == fe.len(),
                fe == file_entries(self.files),
                i <= n,
                e@.len() == 1 + named_files(fe.subrange(0, i as int)).len(),
                e@[0].0@ == "_totals"@,
                match totals_named(fe.subrange(0, i as int)) {
                    Some(j) => file_json(fe[j].1, e@[0].1),
                    None => totals_json(self.totals, e@[0].1),
                },
                forall|k: int| 0 <= k < named_files(fe.subrange(0, i as int)).len() ==> {
                    &&& #[trigger] e@[k + 1].0@ == named_files(fe.subrange(0, i as int))[k].0
                    &&& file_json(named_files(fe.subrange(0, i as int))[k].1, e@[k + 1].1)
                },
            decreases n - i,
        {
            let ghost pre = fe.subrange(0, i as int);
            let ghost cur = fe.subrange(0, i + 1);
            assert(cur.drop_last() =~= pre);
            let (name, fm) = match map_get_index(&self.files, i) {
                Some(p) => p,
                None => {
                    return crate::engine::json::JsonValue::Object(e);
                },
            };
            let block = fm.to_json_file();
            if str_eq(name.as_str(), "_totals") {
                e.set(0, (crate::text::to_owned_string("_totals"), block));
                proof {
                    assert(named_files(cur) =~= named_files(pre));
                    assert(cur.last() == fe[i as int]);
                }
            } else {
                let ghost before = e@;
                e.push((crate::text::copy_string(name), block));
                proof {
                    assert(cur.last() == fe[i as int]);
                    assert(named_files(cur) =~= named_files(pre).push(cur.last()));
                }
            }
            i = i + 1;
        }
        proof {
            assert(fe.subrange(0, n as int) =~= fe);
        }
        let r = crate::engine::json::JsonValue::Object(e);
        assert(crate::engine::json::key_at(r, 0) == "_totals"@);
        assert forall|k: int| 0 <= k < named_files(fe).len() implies {
            &&& #[trigger] crate::engine::json::key_at(r, k + 1) == named_files(fe)[k].0
            &&& file_json(named_files(fe)[k].1, crate::engine::json::val_at(r, k + 1))
        } by {
            assert(e@[k + 1].0@ == named_files(fe)[k].0);
        }
        r
    }
}

} // verus!
