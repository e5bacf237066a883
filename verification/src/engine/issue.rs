//! Issues reported by tests: their weakness identifiers, line ranges,
//! drafts, rendering and comparison.

use vstd::prelude::*;
use crate::constants::{Rank, rank_at_least, rank_name};
use crate::engine::json::JsonValue;
use crate::source::{SourceFile, line_at};
use crate::text::{
    decimal, push_char, push_decimal, push_str, copy_string, str_eq, to_owned_string,
};

verus! {

/// A Common Weakness Enumeration identifier (`0` = not set).
#[derive(Debug, Clone, Copy, PartialEq, Eq, Structural, Hash, Default)]
pub struct Cwe(pub u32);

/// `https://cwe.mitre.org/data/definitions/<id>.html`.
pub open spec fn cwe_link(id: nat) -> Seq<char> {
    "https://cwe.mitre.org/data/definitions/"@ + decimal(id) + ".html"@
}

/// `str(cwe)`: `"CWE-<id> (<link>)"`, or empty when not set.
pub open spec fn cwe_text(c: Cwe) -> Seq<char> {
    if c.0 != 0 {
        "CWE-"@ + decimal(c.0 as nat) + " ("@ + cwe_link(c.0 as nat) + ")"@
    } else {
        Seq::empty()
    }
}

impl Cwe {
    /// The identifier that is not set.
    pub fn notset() -> (r: Cwe)
        ensures
            r.0 == 0,
    {
        Cwe(0)
    }

    /// Numeric identifier.
    pub fn id(self) -> (r: u32)
        ensures
            r == self.0,
    {
        self.0
    }

    /// Whether the identifier is set.
    pub fn is_set(self) -> (r: bool)
        ensures
            r == (self.0 != 0),
    {
        self.0 != 0
    }

    /// Link to the MITRE definition, empty when not set.
    pub fn link(self) -> (r: String)
        ensures
            r@ == (if self.0 != 0 { cwe_link(self.0 as nat) } else { Seq::empty() }),
    {
        let mut s = String::new();
        if self.is_set() {
            push_str(&mut s, "https://cwe.mitre.org/data/definitions/");
            push_decimal(&mut s, self.0 as u64);
            push_str(&mut s, ".html");
        }
        assert(self.0 != 0 ==> s@ =~= cwe_link(self.0 as nat));
        s
    }

    /// `str(cwe)`.
    pub fn to_string(self) -> (r: String)
        ensures
            r@ == cwe_text(self),
    {
        let mut s = String::new();
        if self.is_set() {
            push_str(&mut s, "CWE-");
            push_decimal(&mut s, self.0 as u64);
            push_str(&mut s, " (");
            let l = self.link();
            push_str(&mut s, l.as_str());
            push_str(&mut s, ")");
        }
        assert(s@ =~= cwe_text(self));
        s
    }
}

/// An inclusive, contiguous range of line numbers; `end < start` is the
/// empty range.
#[derive(Debug, Clone, Copy, PartialEq, Eq, Structural, Hash)]
pub struct LineRange {
    pub start: u32,
    pub end: u32,
}

/// The line numbers of a range, in order.
pub open spec fn range_lines(r: LineRange) -> Seq<u32> {
    if r.end < r.start {
        Seq::empty()
    } else {
        Seq::new((r.end - r.start + 1) as nat, |i: int| (r.start + i) as u32)
    }
}

/// Number of lines of a range.
pub open spec fn range_len(r: LineRange) -> nat {
    if r.end < r.start {
        0
    } else {
        (r.end - r.start + 1) as nat
    }
}

impl LineRange {
    /// The empty range.
    pub fn empty() -> (r: LineRange)
        ensures
            r.start == 1,
            r.end == 0,
            range_lines(r) == Seq::<u32>::empty(),
    {
        let r = LineRange { start: 1, end: 0 };
        assert(range_lines(r) =~= Seq::<u32>::empty());
        r
    }

    /// The range `start..=end`.
    pub fn new(start: u32, end: u32) -> (r: LineRange)
        ensures
            r.start == start,
            r.end == end,
    {
        LineRange { start, end }
    }

    /// A single line.
    pub fn single(line: u32) -> (r: LineRange)
        ensures
            r.start == line,
            r.end == line,
            range_lines(r) == seq![line],
    {
        let r = LineRange { start: line, end: line };
        assert(range_lines(r) =~= seq![line]);
        r
    }

    /// Whether the range holds no line.
    pub fn is_empty(self) -> (r: bool)
        ensures
            r == (range_len(self) == 0),
    {
        self.end < self.start
    }

    /// Number of lines.
    pub fn len(self) -> (r: usize)
        requires
            self.end < self.start || self.end - self.start < u32::MAX,
        ensures
            r == range_len(self),
    {
        if self.end < self.start {
            0
        } else {
            (self.end - self.start + 1) as usize
        }
    }

    /// The line numbers, in order.
    pub fn iter(self) -> (r: Vec<u32>)
        ensures
            r@ == range_lines(self),
    {
        self.to_vec()
    }

    /// The line numbers as a list.
    pub fn to_vec(self) -> (r: Vec<u32>)
        ensures
            r@ == range_lines(self),
    {
        let mut v: Vec<u32> = Vec::new();
        if self.end < self.start {
            assert(v@ =~= range_lines(self));
            return v;
        }
        let mut x: u32 = self.start;
        loop
            invariant
                self.start <= x <= self.end,
                v@ =~= range_lines(self).subrange(0, x - self.start),
            decreases self.end - x,
        {
            v.push(x);
            if x == self.end {
                assert(v@ =~= range_lines(self));
                return v;
            }
            x = x + 1;
        }
    }
}

impl Default for LineRange {
    fn default() -> (r: LineRange)
        ensures
            r == (LineRange { start: 1, end: 0 }),
    {
        LineRange::empty()
    }
}

/// The issue returned by a test before the location data of the scanning
/// context is filled in; `None` fields are taken from the context.
#[derive(Debug, Clone)]
pub struct IssueDraft {
    pub severity: Rank,
    pub confidence: Rank,
    pub cwe: Cwe,
    pub text: String,
    pub ident: Option<String>,
    pub lineno: Option<u32>,
    pub col_offset: Option<u32>,
    pub linerange: Option<LineRange>,
    pub test_id: Option<String>,
}

impl IssueDraft {
    /// A draft with the given ranks and text; everything else unset.
    pub fn new(severity: Rank, confidence: Rank, cwe: Cwe, text: &str) -> (r: IssueDraft)
        ensures
            r.severity == severity,
            r.confidence == confidence,
            r.cwe == cwe,
            r.text@ == text@,
            r.ident.is_none(),
            r.lineno.is_none(),
            r.col_offset.is_none(),
            r.linerange.is_none(),
            r.test_id.is_none(),
    {
        IssueDraft {
            severity,
            confidence,
            cwe,
            text: to_owned_string(text),
            ident: None,
            lineno: None,
            col_offset: None,
            linerange: None,
            test_id: None,
        }
    }

    /// Sets the line number.
    pub fn with_lineno(self, lineno: Option<u32>) -> (r: IssueDraft)
        ensures
            r == (IssueDraft { lineno, ..self }),
    {
        IssueDraft { lineno, ..self }
    }

    /// Sets the column offset.
    pub fn with_col_offset(self, col: u32) -> (r: IssueDraft)
        ensures
            r == (IssueDraft { col_offset: Some(col), ..self }),
    {
        IssueDraft { col_offset: Some(col), ..self }
    }

    /// Sets the line range.
    pub fn with_linerange(self, range: LineRange) -> (r: IssueDraft)
        ensures
            r == (IssueDraft { linerange: Some(range), ..self }),
    {
        IssueDraft { linerange: Some(range), ..self }
    }

    /// Sets the identifier reported in place of the test name.
    pub fn with_ident(self, ident: &str) -> (r: IssueDraft)
        ensures
            r.ident is Some,
            r.ident.unwrap()@ == ident@,
            r == (IssueDraft { ident: r.ident, ..self }),
    {
        IssueDraft { ident: Some(to_owned_string(ident)), ..self }
    }

    /// Sets the test id.
    pub fn with_test_id(self, test_id: &str) -> (r: IssueDraft)
        ensures
            r.test_id is Some,
            r.test_id.unwrap()@ == test_id@,
            r == (IssueDraft { test_id: r.test_id, ..self }),
    {
        IssueDraft { test_id: Some(to_owned_string(test_id)), ..self }
    }
}

/// A fully populated issue.
#[derive(Debug, Clone)]
pub struct Issue {
    pub severity: Rank,
    pub confidence: Rank,
    pub cwe: Cwe,
    pub text: String,
    pub ident: Option<String>,
    pub fname: String,
    pub test: String,
    pub test_id: String,
    pub lineno: u32,
    pub col_offset: u32,
    pub end_col_offset: u32,
    pub linerange: LineRange,
    /// Source text used to render code snippets.
    pub source: Option<SourceFile>,
}

/// `Issue.__eq__`: text, severity, cwe, confidence, file name, test name and
/// test id agree (locations are ignored).
pub open spec fn same_signature_spec(a: Issue, b: Issue) -> bool {
    &&& a.text@ == b.text@
    &&& a.severity == b.severity
    &&& a.cwe == b.cwe
    &&& a.confidence == b.confidence
    &&& a.fname@ == b.fname@
    &&& a.test@ == b.test@
    &&& a.test_id@ == b.test_id@
}

/// `Issue.filter(severity, confidence)`.
pub open spec fn passes_filter(i: Issue, severity: Rank, confidence: Rank) -> bool {
    rank_at_least(i.severity, severity) && rank_at_least(i.confidence, confidence)
}

/// `str(issue)`.
pub open spec fn issue_text(i: Issue) -> Seq<char> {
    let who = match i.ident {
        Some(id) => id@,
        None => i.test@,
    };
    "Issue: '"@ + i.text@ + "' from "@ + i.test_id@ + ":"@ + who + ": CWE: "@ + cwe_text(i.cwe)
        + ", Severity: "@ + rank_name(i.severity) + " Confidence: "@ + rank_name(i.confidence)
        + " at "@ + i.fname@ + ":"@ + decimal(i.lineno as nat) + ":"@ + decimal(i.col_offset as nat)
}

/// One rendered snippet line: `"<n> <text>"`, or tab separated.
pub open spec fn code_line(n: int, text: Seq<char>, tabbed: bool) -> Seq<char> {
    decimal(n as nat) + (if tabbed { seq!['\t'] } else { seq![' '] }) + text
}

/// Lines `from .. to` of `lines`, rendered, stopping at the first line past
/// the end of the file.
pub open spec fn code_window(lines: Seq<Seq<char>>, from: int, to: int, tabbed: bool) -> Seq<char>
    decreases to - from,
{
    if from >= to || line_at(lines, from).len() == 0 {
        Seq::empty()
    } else {
        code_line(from, line_at(lines, from), tabbed) + code_window(lines, from + 1, to, tabbed)
    }
}

/// First line of the snippet window.
pub open spec fn code_first(lineno: int, max_lines: int) -> int {
    let m = if max_lines < 1 { 1 } else { max_lines };
    let l = lineno - m / 2;
    if l < 1 { 1 } else { l }
}

/// Line after the last line of the snippet window.
pub open spec fn code_end(lineno: int, range_len: int, max_lines: int) -> int {
    let m = if max_lines < 1 { 1 } else { max_lines };
    code_first(lineno, max_lines) + range_len + m - 1
}

/// `Issue.get_code(max_lines, tabbed)`.
pub open spec fn issue_code(i: Issue, max_lines: int, tabbed: bool) -> Seq<char> {
    match i.source {
        None => Seq::empty(),
        Some(f) => code_window(
            f.lines_view(),
            code_first(i.lineno as int, max_lines),
            code_end(i.lineno as int, range_len(i.linerange) as int, max_lines),
            tabbed,
        ),
    }
}

impl Issue {
    /// An issue with explicit location data; no column, no line range.
    pub fn new(
        severity: Rank,
        confidence: Rank,
        cwe: Cwe,
        text: &str,
        fname: &str,
        test: &str,
        test_id: &str,
        lineno: u32,
    ) -> (r: Issue)
        ensures
            r.severity == severity,
            r.confidence == confidence,
            r.cwe == cwe,
            r.text@ == text@,
            r.ident.is_none(),
            r.fname@ == fname@,
            r.test@ == test@,
            r.test_id@ == test_id@,
            r.lineno == lineno,
            r.col_offset == 0,
            r.end_col_offset == 0,
            r.linerange == (LineRange { start: 1, end: 0 }),
            r.source.is_none(),
    {
        Issue {
            severity,
            confidence,
            cwe,
            text: to_owned_string(text),
            ident: None,
            fname: to_owned_string(fname),
            test: to_owned_string(test),
            test_id: to_owned_string(test_id),
            lineno,
            col_offset: 0,
            end_col_offset: 0,
            linerange: LineRange::empty(),
            source: None,
        }
    }

    /// `Issue.__eq__` (line numbers are ignored).
    pub fn same_signature(&self, other: &Issue) -> (r: bool)
        ensures
            r == same_signature_spec(*self, *other),
    {
        str_eq(self.text.as_str(), other.text.as_str()) && self.severity == other.severity
            && self.cwe == other.cwe && self.confidence == other.confidence
            && str_eq(self.fname.as_str(), other.fname.as_str())
            && str_eq(self.test.as_str(), other.test.as_str())
            && str_eq(self.test_id.as_str(), other.test_id.as_str())
    }

    /// Compares with an issue loaded from a baseline report.
    pub fn matches_baseline(&self, other: &BaselineIssue) -> (r: bool)
        ensures
            r == matches_baseline_spec(*self, *other),
    {
        opt_str_eq(&other.text, self.text.as_str())
            && opt_str_eq(&other.severity, self.severity.as_str()) && other.cwe == self.cwe
            && opt_str_eq(&other.confidence, self.confidence.as_str())
            && opt_str_eq(&other.fname, self.fname.as_str())
            && opt_str_eq(&other.test, self.test.as_str())
            && opt_str_eq(&other.test_id, self.test_id.as_str())
    }

    /// Whether the issue meets the severity and confidence thresholds.
    pub fn filter(&self, severity: Rank, confidence: Rank) -> (r: bool)
        ensures
            r == passes_filter(*self, severity, confidence),
    {
        self.severity.at_least(severity) && self.confidence.at_least(confidence)
    }

    /// Code snippet around the issue, one `"<lineno> <line>"` entry per
    /// line (tab separated when `tabbed`).
    pub fn get_code(&self, max_lines: i64, tabbed: bool) -> (r: String)
        ensures
            r@ == issue_code(*self, max_lines as int, tabbed),
    {
        let mut out = String::new();
        match &self.source {
            None => out,
            Some(f) => {
                let m: i128 = if max_lines < 1 { 1 } else { max_lines as i128 };
                let l: i128 = self.lineno as i128 - m / 2;
                let lmin: i128 = if l < 1 { 1 } else { l };
                let rl: i128 = if self.linerange.end < self.linerange.start {
                    0
                } else {
                    self.linerange.end as i128 - self.linerange.start as i128 + 1
                };
                let lmax: i128 = lmin + rl + m - 1;
                let ghost lines = f.lines_view();
                let nlines = f.line_count();
                let mut line: i128 = lmin;
                assert(rl == range_len(self.linerange));
                assert(lmin == code_first(self.lineno as int, max_lines as int));
                assert(lmax == code_end(self.lineno as int, rl as int, max_lines as int));
                while line < lmax
                    invariant
                        1 <= lmin <= line,
                        lmin <= self.lineno + 1,
                        nlines == lines.len(),
                        lines == f.lines_view(),
                        self.source == Some(*f),
                        code_window(lines, lmin as int, lmax as int, tabbed)
                            == issue_code(*self, max_lines as int, tabbed),
                        out@ + code_window(lines, line as int, lmax as int, tabbed)
                            == code_window(lines, lmin as int, lmax as int, tabbed),
                    decreases lmax - line,
                {
                    if line > nlines as i128 {
                        assert(code_window(lines, line as int, lmax as int, tabbed) =~= Seq::empty());
                        assert(out@ =~= out@ + Seq::<char>::empty());
                        return out;
                    }
                    let text = f.snippet_line(line as u64);
                    if text.unicode_len() == 0 {
                        assert(code_window(lines, line as int, lmax as int, tabbed) =~= Seq::empty());
                        assert(out@ =~= out@ + Seq::<char>::empty());
                        return out;
                    }
                    let ghost before = out@;
                    push_decimal(&mut out, line as u64);
                    if tabbed {
                        push_char(&mut out, '\t');
                    } else {
                        push_char(&mut out, ' ');
                    }
                    push_str(&mut out, text.as_str());
                    assert(out@ =~= before + code_line(line as int, text@, tabbed));
                    assert(code_window(lines, line as int, lmax as int, tabbed)
                        =~= code_line(line as int, text@, tabbed) + code_window(lines, line + 1, lmax as int, tabbed));
                    assert(out@ + code_window(lines, line + 1, lmax as int, tabbed)
                        =~= before + code_window(lines, line as int, lmax as int, tabbed));
                    line = line + 1;
                }
                assert(code_window(lines, line as int, lmax as int, tabbed) =~= Seq::empty());
                assert(out@ =~= out@ + Seq::<char>::empty());
                out
            },
        }
    }

    /// `str(issue)`.
    pub fn to_string(&self) -> (r: String)
        ensures
            r@ == issue_text(*self),
    {
        let mut s = String::new();
        push_str(&mut s, "Issue: '");
        push_str(&mut s, self.text.as_str());
        push_str(&mut s, "' from ");
        push_str(&mut s, self.test_id.as_str());
        push_str(&mut s, ":");
        match &self.ident {
            Some(id) => push_str(&mut s, id.as_str()),
            None => push_str(&mut s, self.test.as_str()),
        }
        push_str(&mut s, ": CWE: ");
        let c = self.cwe.to_string();
        push_str(&mut s, c.as_str());
        push_str(&mut s, ", Severity: ");
        push_str(&mut s, self.severity.as_str());
        push_str(&mut s, " Confidence: ");
        push_str(&mut s, self.confidence.as_str());
        push_str(&mut s, " at ");
        push_str(&mut s, self.fname.as_str());
        push_str(&mut s, ":");
        push_decimal(&mut s, self.lineno as u64);
        push_str(&mut s, ":");
        push_decimal(&mut s, self.col_offset as u64);
        assert(s@ =~= issue_text(*self));
        s
    }
}

/// `Issue.__eq__` is an equivalence: reflexive, symmetric, transitive, and
/// blind to the line, column and line range.
pub proof fn lemma_same_signature_equivalence(a: Issue, b: Issue, c: Issue, lineno: u32, col: u32, range: LineRange)
    ensures
        same_signature_spec(a, a),
        same_signature_spec(a, b) ==> same_signature_spec(b, a),
        same_signature_spec(a, b) && same_signature_spec(b, c) ==> same_signature_spec(a, c),
        same_signature_spec(a, Issue { lineno, col_offset: col, linerange: range, ..a }),
{
}

/// `filter` is monotone in both thresholds: an issue passing a threshold
/// passes every lower one, and the lowest thresholds pass every issue.
pub proof fn lemma_filter_monotone(i: Issue, s1: Rank, c1: Rank, s2: Rank, c2: Rank)
    ensures
        passes_filter(i, Rank::Undefined, Rank::Undefined),
        passes_filter(i, s1, c1) && rank_at_least(s1, s2) && rank_at_least(c1, c2) ==> passes_filter(i, s2, c2),
{
}

/// `o == Some(s)` on string views.
pub open spec fn opt_is(o: Option<String>, s: Seq<char>) -> bool {
    o is Some && o.unwrap()@ == s
}

fn opt_str_eq(o: &Option<String>, s: &str) -> (r: bool)
    ensures
        r == opt_is(*o, s@),
{
    match o {
        Some(x) => str_eq(x.as_str(), s),
        None => false,
    }
}


/// An issue loaded from a baseline report: the fields taking part in issue
/// equality are typed, the others kept verbatim.
#[derive(Debug)]
pub struct BaselineIssue {
    pub text: Option<String>,
    pub severity: Option<String>,
    pub cwe: Cwe,
    pub confidence: Option<String>,
    pub fname: Option<String>,
    pub test: Option<String>,
    pub test_id: Option<String>,
    pub code: JsonValue,
    pub line_number: JsonValue,
    pub line_range: JsonValue,
    pub col_offset: JsonValue,
    pub end_col_offset: JsonValue,
}

/// An issue of this run matches a baseline issue.
pub open spec fn matches_baseline_spec(i: Issue, b: BaselineIssue) -> bool {
    &&& opt_is(b.text, i.text@)
    &&& opt_is(b.severity, rank_name(i.severity))
    &&& b.cwe == i.cwe
    &&& opt_is(b.confidence, rank_name(i.confidence))
    &&& opt_is(b.fname, i.fname@)
    &&& opt_is(b.test, i.test@)
    &&& opt_is(b.test_id, i.test_id@)
}

/// Error raised while loading a baseline issue.
#[derive(Debug, Clone, PartialEq, Eq)]
pub struct BaselineError(pub String);

/// The thresholds keep an issue exactly when its ranks reach them: the
/// lowest thresholds keep every issue, an issue always reaches its own
/// ranks, HIGH keeps only HIGH issues, and lowering a threshold never
/// drops an issue.
pub proof fn lemma_filter_thresholds(i: Issue, s1: Rank, s2: Rank, c1: Rank, c2: Rank)
    ensures
        passes_filter(i, Rank::Undefined, Rank::Undefined),
        passes_filter(i, i.severity, i.confidence),
        passes_filter(i, Rank::High, c1) ==> i.severity == Rank::High,
        passes_filter(i, s1, Rank::High) ==> i.confidence == Rank::High,
        passes_filter(i, s1, c1) ==> crate::constants::rank_index(s1) <= crate::constants::rank_index(i.severity)
            && crate::constants::rank_index(c1) <= crate::constants::rank_index(i.confidence),
        passes_filter(i, s2, c2) && crate::constants::rank_index(s1) <= crate::constants::rank_index(s2)
            && crate::constants::rank_index(c1) <= crate::constants::rank_index(c2) ==> passes_filter(i, s1, c1),
{
}

/// A baseline issue only matches an issue of the same file, test and
/// test id, with the same text and the names of the same ranks.
pub proof fn lemma_baseline_match_needs_same_place(i: Issue, b: BaselineIssue)
    requires
        matches_baseline_spec(i, b),
    ensures
        b.fname is Some && b.fname.unwrap()@ == i.fname@,
        b.test is Some && b.test.unwrap()@ == i.test@,
        b.test_id is Some && b.test_id.unwrap()@ == i.test_id@,
        b.text is Some && b.text.unwrap()@ == i.text@,
        b.severity is Some && b.severity.unwrap()@ == crate::constants::rank_name(i.severity),
        b.confidence is Some && b.confidence.unwrap()@ == crate::constants::rank_name(i.confidence),
        b.cwe == i.cwe,
{
}

} // verus!
