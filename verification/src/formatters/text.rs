//! The `txt` report, and the layout it shares with the `screen` report
//! (which adds ANSI colours).
//!
//! `Run started:<time>`, the verbose file lists, `Test results:` with one
//! block per issue (`>> Issue: [id:test] text`, severity and confidence,
//! CWE, documentation link, location, tab-separated code lines, fifty
//! dashes), `Code scanned:` totals, `Run metrics:`, `Files skipped (N):`.
//! Against a baseline, an issue with several candidates is followed by
//! them, indented by ten spaces.

use vstd::prelude::*;
use crate::constants::{Rank, rank_capitalized, rank_at, rank_name, criteria_name};
use crate::engine::docs_utils::{docs_url, get_url};
use crate::engine::issue::{Issue, cwe_text, issue_code};
use crate::engine::manager::{IssueList, Manager};
use crate::engine::metrics::metric_value;
use crate::text::{decimal, push_char, push_decimal, push_str, replace_all, replace_str, seq_join, views_of};

verus! {

/// Colour codes, when the report is styled.
pub open spec fn style_on(styled: bool, code: Seq<char>) -> Seq<char> {
    if styled { code } else { Seq::empty() }
}

/// `COLOR["HEADER"]`.
pub open spec fn header_code() -> Seq<char> {
    seq!['\x1b', '[', '9', '5', 'm']
}

/// `COLOR["DEFAULT"]`.
pub open spec fn default_code() -> Seq<char> {
    seq!['\x1b', '[', '0', 'm']
}

/// The colour of a severity (`UNDEFINED` has the default colour).
pub open spec fn color_code(r: Rank) -> Seq<char> {
    match r {
        Rank::Undefined => default_code(),
        Rank::Low => seq!['\x1b', '[', '9', '4', 'm'],
        Rank::Medium => seq!['\x1b', '[', '9', '3', 'm'],
        Rank::High => seq!['\x1b', '[', '9', '1', 'm'],
    }
}

/// A heading, coloured when styled.
pub open spec fn heading(styled: bool, text: Seq<char>) -> Seq<char> {
    style_on(styled, header_code()) + text + style_on(styled, default_code())
}

/// First line of an issue block.
pub open spec fn block_head(i: Issue, indent: Seq<char>, styled: bool) -> Seq<char> {
    indent + style_on(styled, color_code(i.severity)) + ">> Issue: ["@ + i.test_id@ + ":"@ + i.test@ + "] "@ + i.text@
}

/// Severity and confidence line of an issue block.
pub open spec fn block_ranks(i: Issue, indent: Seq<char>) -> Seq<char> {
    indent + "   Severity: "@ + rank_capitalized(i.severity) + "   Confidence: "@ + rank_capitalized(i.confidence)
}

/// CWE line of an issue block.
pub open spec fn block_cwe(i: Issue, indent: Seq<char>) -> Seq<char> {
    indent + "   CWE: "@ + cwe_text(i.cwe)
}

/// Documentation line of an issue block.
pub open spec fn block_info(i: Issue, indent: Seq<char>) -> Seq<char> {
    indent + "   More Info: "@ + docs_url(i.test_id@)
}

/// Location line of an issue block.
pub open spec fn block_location(i: Issue, indent: Seq<char>, show_lineno: bool, styled: bool) -> Seq<char> {
    indent + "   Location: "@ + i.fname@ + ":"@ + (if show_lineno { decimal(i.lineno as nat) } else { Seq::empty() })
        + ":"@ + (if show_lineno { decimal(i.col_offset as nat) } else { Seq::empty() }) + style_on(styled, default_code())
}

/// Code lines of an issue block, each indented.
pub open spec fn block_code(i: Issue, indent: Seq<char>, show_code: bool, lines: int) -> Seq<char> {
    if show_code {
        seq!['\n'] + indent + replace_all(issue_code(i, lines, true), seq!['\n'], seq!['\n'] + indent)
    } else {
        Seq::empty()
    }
}

/// The report block of one issue.
#[verifier::opaque]
pub open spec fn issue_block(i: Issue, indent: Seq<char>, show_lineno: bool, show_code: bool, lines: int, styled: bool) -> Seq<char> {
    block_head(i, indent, styled) + seq!['\n'] + block_ranks(i, indent) + seq!['\n'] + block_cwe(i, indent) + seq!['\n']
        + block_info(i, indent) + seq!['\n'] + block_location(i, indent, show_lineno, styled) + block_code(
        i,
        indent,
        show_code,
        lines,
    )
}

/// Fifty dashes.
pub open spec fn dashes() -> Seq<char> {
    Seq::new(50, |i: int| '-')
}

/// Ten spaces.
pub open spec fn candidate_indent() -> Seq<char> {
    Seq::new(10, |i: int| ' ')
}

/// The report lines of the candidates of an issue.
pub open spec fn candidate_bits(c: Seq<&Issue>, lines: int, styled: bool) -> Seq<Seq<char>>
    decreases c.len(),
{
    if c.len() == 0 {
        Seq::empty()
    } else {
        candidate_bits(c.drop_last(), lines, styled) + seq![
            issue_block(*c.last(), candidate_indent(), true, true, lines, styled),
            seq!['\n'],
        ]
    }
}

/// The report lines of a plain issue list.
pub open spec fn plain_bits(v: Seq<&Issue>, lines: int, styled: bool) -> Seq<Seq<char>>
    decreases v.len(),
{
    if v.len() == 0 {
        Seq::empty()
    } else {
        plain_bits(v.drop_last(), lines, styled) + seq![issue_block(*v.last(), Seq::empty(), true, true, lines, styled), dashes()]
    }
}

/// The report lines of one new issue and its candidates.
pub open spec fn pair_bits(p: (&Issue, Vec<&Issue>), lines: int, styled: bool) -> Seq<Seq<char>> {
    if p.1@.len() == 1 {
        seq![issue_block(*p.0, Seq::empty(), true, true, lines, styled), dashes()]
    } else {
        seq![issue_block(*p.0, Seq::empty(), false, false, lines, styled), "\n-- Candidate Issues --"@]
            + candidate_bits(p.1@, lines, styled) + seq![dashes()]
    }
}

/// The report lines of a baseline issue list.
pub open spec fn baseline_bits(v: Seq<(&Issue, Vec<&Issue>)>, lines: int, styled: bool) -> Seq<Seq<char>>
    decreases v.len(),
{
    if v.len() == 0 {
        Seq::empty()
    } else {
        baseline_bits(v.drop_last(), lines, styled) + pair_bits(v.last(), lines, styled)
    }
}

/// The `Test results:` section for an issue list.
pub open spec fn results_text(l: IssueList, lines: int, styled: bool) -> Seq<char> {
    match l {
        IssueList::Plain(v) => if v@.len() == 0 {
            "\tNo issues identified."@
        } else {
            seq_join(plain_bits(v@, lines, styled), seq!['\n'])
        },
        IssueList::Baseline(v) => if v@.len() == 0 {
            "\tNo issues identified."@
        } else {
            seq_join(baseline_bits(v@, lines, styled), seq!['\n'])
        },
    }
}

/// Joins strings with a separator.
pub fn join(bits: &Vec<String>, sep: &str) -> (r: String)
    ensures
        r@ == seq_join(views_of(bits@), sep@),
{
    let mut out = String::new();
    let mut i: usize = 0;
    while i < bits.len()
        invariant
            i <= bits@.len(),
            out@ == seq_join(views_of(bits@).subrange(0, i as int), sep@),
        decreases bits@.len() - i,
    {
        let ghost t = views_of(bits@).subrange(0, i + 1);
        assert(t.drop_last() =~= views_of(bits@).subrange(0, i as int));
        if i > 0 {
            push_str(&mut out, sep);
        }
        push_str(&mut out, bits[i].as_str());
        proof {
            if i == 0 {
                assert(t.len() == 1);
                assert(out@ =~= t[0]);
            }
        }
        i = i + 1;
    }
    assert(views_of(bits@).subrange(0, bits@.len() as int) =~= views_of(bits@));
    out
}

fn push_code(s: &mut String, code: &str)
    ensures
        final(s)@ == old(s)@ + code@,
{
    push_str(s, code);
}

fn push_style(s: &mut String, styled: bool, code: &str)
    ensures
        final(s)@ == old(s)@ + style_on(styled, code@),
{
    if styled {
        push_str(s, code);
    }
}

fn header_str() -> (r: &'static str)
    ensures
        r@ == header_code(),
{
    let s = "\x1b[95m";
    proof {
        reveal_strlit("\x1b[95m");
    }
    assert(s@ =~= header_code());
    s
}

fn default_str() -> (r: &'static str)
    ensures
        r@ == default_code(),
{
    let s = "\x1b[0m";
    proof {
        reveal_strlit("\x1b[0m");
    }
    assert(s@ =~= default_code());
    s
}

/// The colour code of a severity.
pub fn color_str(r: Rank) -> (s: &'static str)
    ensures
        s@ == color_code(r),
{
    match r {
        Rank::Undefined => default_str(),
        Rank::Low => {
            let s = "\x1b[94m";
            proof {
                reveal_strlit("\x1b[94m");
            }
            assert(s@ =~= color_code(r));
            s
        },
        Rank::Medium => {
            let s = "\x1b[93m";
            proof {
                reveal_strlit("\x1b[93m");
            }
            assert(s@ =~= color_code(r));
            s
        },
        Rank::High => {
            let s = "\x1b[91m";
            proof {
                reveal_strlit("\x1b[91m");
            }
            assert(s@ =~= color_code(r));
            s
        },
    }
}

/// A heading, coloured when styled.
pub fn heading_text(styled: bool, text: &str) -> (r: String)
    ensures
        r@ == heading(styled, text@),
{
    let mut s = String::new();
    push_style(&mut s, styled, header_str());
    push_str(&mut s, text);
    push_style(&mut s, styled, default_str());
    s
}

fn head_text(i: &Issue, indent: &str, styled: bool) -> (r: String)
    ensures
        r@ == block_head(*i, indent@, styled),
{
    let mut s = String::new();
    push_str(&mut s, indent);
    push_style(&mut s, styled, color_str(i.severity));
    push_str(&mut s, ">> Issue: [");
    push_str(&mut s, i.test_id.as_str());
    push_str(&mut s, ":");
    push_str(&mut s, i.test.as_str());
    push_str(&mut s, "] ");
    push_str(&mut s, i.text.as_str());
    assert(s@ =~= block_head(*i, indent@, styled));
    s
}

fn ranks_text(i: &Issue, indent: &str) -> (r: String)
    ensures
        r@ == block_ranks(*i, indent@),
{
    let mut s = String::new();
    push_str(&mut s, indent);
    push_str(&mut s, "   Severity: ");
    push_str(&mut s, i.severity.capitalize());
    push_str(&mut s, "   Confidence: ");
    push_str(&mut s, i.confidence.capitalize());
    assert(s@ =~= block_ranks(*i, indent@));
    s
}

fn cwe_line(i: &Issue, indent: &str) -> (r: String)
    ensures
        r@ == block_cwe(*i, indent@),
{
    let mut s = String::new();
    push_str(&mut s, indent);
    push_str(&mut s, "   CWE: ");
    let c = i.cwe.to_string();
    push_str(&mut s, c.as_str());
    assert(s@ =~= block_cwe(*i, indent@));
    s
}

fn info_line(i: &Issue, indent: &str) -> (r: String)
    ensures
        r@ == block_info(*i, indent@),
{
    let mut s = String::new();
    push_str(&mut s, indent);
    push_str(&mut s, "   More Info: ");
    let u = get_url(i.test_id.as_str());
    push_str(&mut s, u.as_str());
    assert(s@ =~= block_info(*i, indent@));
    s
}

fn location_line(i: &Issue, indent: &str, show_lineno: bool, styled: bool) -> (r: String)
    ensures
        r@ == block_location(*i, indent@, show_lineno, styled),
{
    let mut s = String::new();
    push_str(&mut s, indent);
    push_str(&mut s, "   Location: ");
    push_str(&mut s, i.fname.as_str());
    push_str(&mut s, ":");
    if show_lineno {
        push_decimal(&mut s, i.lineno as u64);
    }
    push_str(&mut s, ":");
    if show_lineno {
        push_decimal(&mut s, i.col_offset as u64);
    }
    push_style(&mut s, styled, default_str());
    assert(s@ =~= block_location(*i, indent@, show_lineno, styled));
    s
}

fn code_lines(i: &Issue, indent: &str, show_code: bool, lines: i64) -> (r: String)
    ensures
        r@ == block_code(*i, indent@, show_code, lines as int),
{
    let mut s = String::new();
    if show_code {
        push_char(&mut s, '\n');
        push_str(&mut s, indent);
        let code = i.get_code(lines, true);
        let mut nl = String::new();
        push_char(&mut nl, '\n');
        let mut nl_indent = String::new();
        push_char(&mut nl_indent, '\n');
        push_str(&mut nl_indent, indent);
        let body = replace_str(code.as_str(), nl.as_str(), nl_indent.as_str());
        push_str(&mut s, body.as_str());
        assert(s@ =~= block_code(*i, indent@, show_code, lines as int));
    } else {
        assert(s@ =~= block_code(*i, indent@, show_code, lines as int));
    }
    s
}

/// The report block of one issue.
pub fn issue_block_text(i: &Issue, indent: &str, show_lineno: bool, show_code: bool, lines: i64, styled: bool) -> (r: String)
    ensures
        r@ == issue_block(*i, indent@, show_lineno, show_code, lines as int, styled),
{
    let a = head_text(i, indent, styled);
    let b = ranks_text(i, indent);
    let c = cwe_line(i, indent);
    let d = info_line(i, indent);
    let e = location_line(i, indent, show_lineno, styled);
    let f = code_lines(i, indent, show_code, lines);
    let mut s = String::new();
    push_str(&mut s, a.as_str());
    push_char(&mut s, '\n');
    push_str(&mut s, b.as_str());
    push_char(&mut s, '\n');
    push_str(&mut s, c.as_str());
    push_char(&mut s, '\n');
    push_str(&mut s, d.as_str());
    push_char(&mut s, '\n');
    push_str(&mut s, e.as_str());
    push_str(&mut s, f.as_str());
    proof {
        reveal(issue_block);
    }
    assert(s@ =~= issue_block(*i, indent@, show_lineno, show_code, lines as int, styled));
    s
}

fn dash_line() -> (r: String)
    ensures
        r@ == dashes(),
{
    let mut s = String::new();
    let mut k: usize = 0;
    while k < 50
        invariant
            k <= 50,
            s@ =~= Seq::new(k as nat, |i: int| '-'),
        decreases 50 - k,
    {
        push_char(&mut s, '-');
        k = k + 1;
    }
    s
}

fn spaces10() -> (r: String)
    ensures
        r@ == candidate_indent(),
{
    let mut s = String::new();
    let mut k: usize = 0;
    while k < 10
        invariant
            k <= 10,
            s@ =~= Seq::new(k as nat, |i: int| ' '),
        decreases 10 - k,
    {
        push_char(&mut s, ' ');
        k = k + 1;
    }
    s
}

fn push_bit(bits: &mut Vec<String>, b: String)
    ensures
        views_of(final(bits)@) == views_of(old(bits)@).push(b@),
{
    let ghost before = bits@;
    bits.push(b);
    assert(views_of(bits@) =~= views_of(before).push(b@));
}

fn plain_lines(v: &Vec<&Issue>, lines: i64, styled: bool) -> (r: Vec<String>)
    ensures
        views_of(r@) == plain_bits(v@, lines as int, styled),
{
    let mut bits: Vec<String> = Vec::new();
    let mut i: usize = 0;
    while i < v.len()
        invariant
            i <= v@.len(),
            views_of(bits@) == plain_bits(v@.subrange(0, i as int), lines as int, styled),
        decreases v@.len() - i,
    {
        let ghost t = v@.subrange(0, i + 1);
        assert(t.drop_last() =~= v@.subrange(0, i as int));
        let ghost before = views_of(bits@);
        let b = issue_block_text(v[i], "", true, true, lines, styled);
        let d = dash_line();
        proof {
            reveal_strlit("");
        }
        assert(""@ =~= Seq::<char>::empty());
        push_bit(&mut bits, b);
        push_bit(&mut bits, d);
        assert(views_of(bits@) =~= before + seq![b@, d@]);
        i = i + 1;
    }
    assert(v@.subrange(0, v@.len() as int) =~= v@);
    bits
}

fn candidate_lines(c: &Vec<&Issue>, ind: &String, lines: i64, styled: bool) -> (r: Vec<String>)
    requires
        ind@ == candidate_indent(),
    ensures
        views_of(r@) == candidate_bits(c@, lines as int, styled),
{
    let mut bits: Vec<String> = Vec::new();
    let mut j: usize = 0;
    while j < c.len()
        invariant
            j <= c@.len(),
            ind@ == candidate_indent(),
            views_of(bits@) == candidate_bits(c@.subrange(0, j as int), lines as int, styled),
        decreases c@.len() - j,
    {
        let ghost tt = c@.subrange(0, j + 1);
        assert(tt.drop_last() =~= c@.subrange(0, j as int));
        let ghost before = views_of(bits@);
        let b = issue_block_text(c[j], ind.as_str(), true, true, lines, styled);
        let mut nl = String::new();
        push_char(&mut nl, '\n');
        push_bit(&mut bits, b);
        push_bit(&mut bits, nl);
        assert(views_of(bits@) =~= before + seq![b@, seq!['\n']]);
        j = j + 1;
    }
    assert(c@.subrange(0, c@.len() as int) =~= c@);
    bits
}

fn append_bits(bits: &mut Vec<String>, more: Vec<String>)
    ensures
        views_of(final(bits)@) == views_of(old(bits)@) + views_of(more@),
{
    let ghost a = bits@;
    let mut more = more;
    let ghost b = more@;
    bits.append(&mut more);
    assert(bits@ =~= a + b);
    assert(views_of(bits@) =~= views_of(a) + views_of(b));
}

fn pair_lines(p: &(&Issue, Vec<&Issue>), ind: &String, lines: i64, styled: bool) -> (r: Vec<String>)
    requires
        ind@ == candidate_indent(),
    ensures
        views_of(r@) == pair_bits(*p, lines as int, styled),
{
    let mut bits: Vec<String> = Vec::new();
    proof {
        reveal_strlit("");
    }
    assert(""@ =~= Seq::<char>::empty());
    if p.1.len() == 1 {
        let b = issue_block_text(p.0, "", true, true, lines, styled);
        push_bit(&mut bits, b);
    } else {
        let b = issue_block_text(p.0, "", false, false, lines, styled);
        push_bit(&mut bits, b);
        push_bit(&mut bits, String::from_str("\n-- Candidate Issues --"));
        let more = candidate_lines(&p.1, ind, lines, styled);
        append_bits(&mut bits, more);
    }
    let d = dash_line();
    push_bit(&mut bits, d);
    assert(views_of(bits@) =~= pair_bits(*p, lines as int, styled));
    bits
}

fn baseline_lines(v: &Vec<(&Issue, Vec<&Issue>)>, lines: i64, styled: bool) -> (r: Vec<String>)
    ensures
        views_of(r@) == baseline_bits(v@, lines as int, styled),
{
    let ind = spaces10();
    let mut bits: Vec<String> = Vec::new();
    let mut i: usize = 0;
    while i < v.len()
        invariant
            i <= v@.len(),
            ind@ == candidate_indent(),
            views_of(bits@) == baseline_bits(v@.subrange(0, i as int), lines as int, styled),
        decreases v@.len() - i,
    {
        let ghost t = v@.subrange(0, i + 1);
        assert(t.drop_last() =~= v@.subrange(0, i as int));
        let more = pair_lines(&v[i], &ind, lines, styled);
        append_bits(&mut bits, more);
        i = i + 1;
    }
    assert(v@.subrange(0, v@.len() as int) =~= v@);
    bits
}

/// The `Test results:` section for an issue list.
pub fn results_section(l: &IssueList, lines: i64, styled: bool) -> (r: String)
    ensures
        r@ == results_text(*l, lines as int, styled),
{
    if l.is_empty() {
        return String::from_str("\tNo issues identified.");
    }
    let bits = match l {
        IssueList::Plain(v) => plain_lines(v, lines, styled),
        IssueList::Baseline(v) => baseline_lines(v, lines, styled),
    };
    let mut nl = String::new();
    push_char(&mut nl, '\n');
    join(&bits, nl.as_str())
}

/// The metric of a criterion and rank, 0 when absent.
pub open spec fn metric_or_zero(m: Manager, crit: int, rank: int) -> nat {
    match metric_value(m.metrics.totals, criteria_name(crit) + "."@ + rank_name(rank_at(rank).unwrap())) {
        Some(v) => v as nat,
        None => 0,
    }
}

/// Lower-case criterion name.
pub open spec fn criteria_lower(crit: int) -> Seq<char> {
    if crit == 0 { "severity"@ } else { "confidence"@ }
}

/// The lines of the `Run metrics:` section.
pub open spec fn metrics_bits(m: Manager, styled: bool) -> Seq<Seq<char>> {
    seq![heading(styled, "\nRun metrics:"@)] + Seq::new(10, |k: int| {
        let crit = k / 5;
        let j = k % 5;
        if j == 0 {
            "\tTotal issues (by "@ + criteria_lower(crit) + "):"@
        } else {
            "\t\t"@ + rank_capitalized(rank_at(j - 1).unwrap()) + ": "@ + decimal(metric_or_zero(m, crit, j - 1))
        }
    })
}

/// The `Run metrics:` section.
pub fn metrics_section(m: &Manager, styled: bool) -> (r: String)
    ensures
        r@ == seq_join(metrics_bits(*m, styled), seq!['\n']),
{
    let mut bits: Vec<String> = Vec::new();
    push_bit(&mut bits, heading_text(styled, "\nRun metrics:"));
    let mut k: usize = 0;
    while k < 10
        invariant
            k <= 10,
            views_of(bits@) =~= metrics_bits(*m, styled).subrange(0, k + 1),
        decreases 10 - k,
    {
        let crit = k / 5;
        let j = k % 5;
        let mut s = String::new();
        if j == 0 {
            push_str(&mut s, "\tTotal issues (by ");
            push_str(&mut s, if crit == 0 { "severity" } else { "confidence" });
            push_str(&mut s, "):");
        } else {
            let rank = match Rank::from_index(j - 1) {
                Some(r) => r,
                None => Rank::Undefined,
            };
            let mut label = String::new();
            push_str(&mut label, if crit == 0 { "SEVERITY" } else { "CONFIDENCE" });
            push_str(&mut label, ".");
            push_str(&mut label, rank.as_str());
            let value = match m.metrics.totals.get(label.as_str()) {
                Some(v) => v,
                None => 0,
            };
            push_str(&mut s, "\t\t");
            push_str(&mut s, rank.capitalize());
            push_str(&mut s, ": ");
            push_decimal(&mut s, value);
        }
        push_bit(&mut bits, s);
        k = k + 1;
    }
    assert(metrics_bits(*m, styled).subrange(0, 11) =~= metrics_bits(*m, styled));
    let mut nl = String::new();
    push_char(&mut nl, '\n');
    join(&bits, nl.as_str())
}

/// Sum of a score vector.
pub open spec fn total(v: [u64; 4]) -> nat {
    (v@[0] + v@[1] + v@[2] + v@[3]) as nat
}

/// The score sums of a run fit in 64 bits.
pub open spec fn totals_fit(m: Manager) -> bool {
    forall|k: int| 0 <= k < m.scores@.len() ==> total(#[trigger] m.scores@[k].severity) <= u64::MAX && total(
        m.scores@[k].confidence,
    ) <= u64::MAX
}

/// The file lines of the verbose section: each scanned file with its
/// scores.
pub open spec fn scope_line(f: Seq<char>, sev: nat, conf: nat) -> Seq<char> {
    "\t"@ + f + " (score: {SEVERITY: "@ + decimal(sev) + ", CONFIDENCE: "@ + decimal(conf) + "})"@
}

/// The lines of the verbose section.
pub open spec fn verbose_bits(m: Manager, styled: bool) -> Seq<Seq<char>> {
    let n = if m.files_list@.len() <= m.scores@.len() { m.files_list@.len() } else { m.scores@.len() };
    seq![heading(styled, "Files in scope ("@ + decimal(m.files_list@.len()) + "):"@)] + Seq::new(
        n,
        |k: int| scope_line(m.files_list@[k]@, total(m.scores@[k].severity), total(m.scores@[k].confidence)),
    ) + seq![heading(styled, "Files excluded ("@ + decimal(m.excluded_files@.len()) + "):"@)] + Seq::new(
        m.excluded_files@.len(),
        |k: int| "\t"@ + m.excluded_files@[k]@,
    )
}

/// The verbose section: files in scope with their scores, excluded files.
pub fn verbose_section(m: &Manager, styled: bool) -> (r: String)
    requires
        totals_fit(*m),
    ensures
        r@ == seq_join(verbose_bits(*m, styled), seq!['\n']),
{
    let mut bits: Vec<String> = Vec::new();
    let mut h = String::from_str("Files in scope (");
    push_decimal(&mut h, m.files_list.len() as u64);
    push_str(&mut h, "):");
    push_bit(&mut bits, heading_text(styled, h.as_str()));
    let n = if m.files_list.len() <= m.scores.len() { m.files_list.len() } else { m.scores.len() };
    let ghost target = verbose_bits(*m, styled);
    let mut k: usize = 0;
    while k < n
        invariant
            k <= n,
            n <= m.files_list@.len(),
            n <= m.scores@.len(),
            n == (if m.files_list@.len() <= m.scores@.len() { m.files_list@.len() } else { m.scores@.len() }),
            totals_fit(*m),
            target == verbose_bits(*m, styled),
            views_of(bits@) =~= target.subrange(0, k + 1),
        decreases n - k,
    {
        let sc = &m.scores[k];
        assert(total(sc.severity) <= u64::MAX);
        let mut line = String::from_str("\t");
        push_str(&mut line, m.files_list[k].as_str());
        push_str(&mut line, " (score: {SEVERITY: ");
        push_decimal(&mut line, sc.severity_total());
        push_str(&mut line, ", CONFIDENCE: ");
        push_decimal(&mut line, sc.confidence_total());
        push_str(&mut line, "})");
        assert(line@ =~= scope_line(m.files_list@[k as int]@, total(sc.severity), total(sc.confidence)));
        push_bit(&mut bits, line);
        k = k + 1;
    }
    let mut h2 = String::from_str("Files excluded (");
    push_decimal(&mut h2, m.excluded_files.len() as u64);
    push_str(&mut h2, "):");
    push_bit(&mut bits, heading_text(styled, h2.as_str()));
    let mut j: usize = 0;
    while j < m.excluded_files.len()
        invariant
            j <= m.excluded_files@.len(),
            n == (if m.files_list@.len() <= m.scores@.len() { m.files_list@.len() } else { m.scores@.len() }),
            target == verbose_bits(*m, styled),
            views_of(bits@) =~= target.subrange(0, n + 2 + j),
        decreases m.excluded_files@.len() - j,
    {
        let mut line = String::from_str("\t");
        push_str(&mut line, m.excluded_files[j].as_str());
        push_bit(&mut bits, line);
        j = j + 1;
    }
    assert(target.subrange(0, n + 2 + m.excluded_files@.len()) =~= target);
    let mut nl = String::new();
    push_char(&mut nl, '\n');
    join(&bits, nl.as_str())
}

/// `get_issue_list`'s result for a run: the filtered results, or, against
/// a baseline, the new ones, each with its candidates (the filtered results
/// with its signature, in order).
pub open spec fn issue_list_of(m: Manager, sev: Rank, conf: Rank, l: IssueList) -> bool {
    &&& m.baseline@.len() == 0 ==> l is Plain && crate::engine::manager::derefs(l->Plain_0@)
        == crate::engine::manager::filtered(m.results@, sev, conf)
    &&& m.baseline@.len() > 0 ==> l is Baseline && l->Baseline_0@.map_values(|x: (&Issue, Vec<&Issue>)| *x.0)
        == crate::engine::manager::unmatched(m.baseline@, crate::engine::manager::filtered(m.results@, sev, conf))
        && forall|i: int| 0 <= i < l->Baseline_0@.len() ==> crate::engine::manager::derefs(
            (#[trigger] l->Baseline_0@[i]).1@,
        ) == crate::engine::manager::derefs(
            crate::engine::manager::candidates(l->Baseline_0@[i].0, crate::engine::manager::filtered_refs(&m, sev, conf)),
        )
}

/// The lines of a report, around its results section `results`.
pub open spec fn report_bits(m: Manager, started: Seq<char>, results: Seq<char>, styled: bool) -> Seq<Seq<char>> {
    seq![heading(styled, "Run started:"@ + started)] + (if m.verbose {
        seq![seq_join(verbose_bits(m, styled), seq!['\n'])]
    } else {
        Seq::empty()
    }) + seq![
        heading(styled, "\nTest results:"@),
        results,
        heading(styled, "\nCode scanned:"@),
        "\tTotal lines of code: "@ + decimal(m.metrics.totals.loc as nat),
        "\tTotal lines skipped (#nosec): "@ + decimal(m.metrics.totals.nosec as nat),
    ] + (if styled {
        Seq::empty()
    } else {
        seq![
            "\tTotal potential issues skipped due to specifically being disabled (e.g., #nosec BXXX): "@
                + decimal(m.metrics.totals.skipped_tests as nat),
        ]
    }) + seq![
        seq_join(metrics_bits(m, styled), seq!['\n']),
        heading(styled, "Files skipped ("@ + decimal(m.skipped@.len()) + "):"@),
    ] + Seq::new(m.skipped@.len(), |k: int| "\t"@ + m.skipped@[k].0@ + " ("@ + m.skipped@[k].1@ + ")"@)
}

/// A report: nothing in quiet mode without results; else the report's
/// lines and a final line break. `started` is the time of the run.
pub fn report_text(m: &Manager, sev: Rank, conf: Rank, lines: i64, started: &str, styled: bool) -> (r: Option<String>)
    requires
        totals_fit(*m),
    ensures
        (m.quiet && m.results_count_spec(sev, conf) == 0) ==> r is None,
        !(m.quiet && m.results_count_spec(sev, conf) == 0) ==> r is Some && exists|l: IssueList| issue_list_of(*m, sev, conf, l)
            && r.unwrap()@ == seq_join(report_bits(*m, started@, results_text(l, lines as int, styled), styled), seq!['\n']) + seq!['\n'],
{
    if m.quiet && m.results_count(sev, conf) == 0 {
        return None;
    }
    let l = m.get_issue_list(sev, conf);
    let res = results_section(&l, lines, styled);
    let mut bits: Vec<String> = Vec::new();
    let mut h = String::from_str("Run started:");
    push_str(&mut h, started);
    push_bit(&mut bits, heading_text(styled, h.as_str()));
    if m.verbose {
        push_bit(&mut bits, verbose_section(m, styled));
    }
    push_bit(&mut bits, heading_text(styled, "\nTest results:"));
    push_bit(&mut bits, res);
    push_bit(&mut bits, heading_text(styled, "\nCode scanned:"));
    let mut a = String::from_str("\tTotal lines of code: ");
    push_decimal(&mut a, m.metrics.totals.loc);
    push_bit(&mut bits, a);
    let mut b = String::from_str("\tTotal lines skipped (#nosec): ");
    push_decimal(&mut b, m.metrics.totals.nosec);
    push_bit(&mut bits, b);
    if !styled {
        let mut c = String::from_str("\tTotal potential issues skipped due to specifically being disabled (e.g., #nosec BXXX): ");
        push_decimal(&mut c, m.metrics.totals.skipped_tests);
        push_bit(&mut bits, c);
    }
    push_bit(&mut bits, metrics_section(m, styled));
    let mut d = String::from_str("Files skipped (");
    push_decimal(&mut d, m.skipped.len() as u64);
    push_str(&mut d, "):");
    push_bit(&mut bits, heading_text(styled, d.as_str()));
    let ghost base = views_of(bits@);
    let mut k: usize = 0;
    while k < m.skipped.len()
        invariant
            k <= m.skipped@.len(),
            views_of(bits@) =~= base + Seq::new(k as nat, |j: int| "\t"@ + m.skipped@[j].0@ + " ("@ + m.skipped@[j].1@ + ")"@),
        decreases m.skipped@.len() - k,
    {
        let mut line = String::from_str("\t");
        push_str(&mut line, m.skipped[k].0.as_str());
        push_str(&mut line, " (");
        push_str(&mut line, m.skipped[k].1.as_str());
        push_str(&mut line, ")");
        push_bit(&mut bits, line);
        k = k + 1;
    }
    assert(views_of(bits@) =~= report_bits(*m, started@, results_text(l, lines as int, styled), styled));
    let mut nl = String::new();
    push_char(&mut nl, '\n');
    let mut out = join(&bits, nl.as_str());
    push_char(&mut out, '\n');
    assert(issue_list_of(*m, sev, conf, l));
    assert(out@ == seq_join(report_bits(*m, started@, results_text(l, lines as int, styled), styled), seq!['\n']) + seq!['\n']);
    Some(out)
}

/// `get_verbose_details(manager)`.
pub fn get_verbose_details(m: &Manager) -> (r: String)
    requires
        totals_fit(*m),
    ensures
        r@ == seq_join(verbose_bits(*m, false), seq!['\n']),
{
    verbose_section(m, false)
}

/// `get_metrics(manager)`.
pub fn get_metrics(m: &Manager) -> (r: String)
    ensures
        r@ == seq_join(metrics_bits(*m, false), seq!['\n']),
{
    metrics_section(m, false)
}

/// `get_results(manager, sev_level, conf_level, lines)`.
pub fn get_results(m: &Manager, sev: Rank, conf: Rank, lines: i64) -> (r: String)
    ensures
        exists|l: IssueList| issue_list_of(*m, sev, conf, l) && r@ == results_text(l, lines as int, false),
{
    let l = m.get_issue_list(sev, conf);
    results_section(&l, lines, false)
}

/// `report(manager, fileobj, sev_level, conf_level, lines)`: the text of
/// the `txt` report, `None` when nothing is printed (quiet mode without
/// results). `started` is the time of the run.
pub fn report(m: &Manager, sev: Rank, conf: Rank, lines: i64, started: &str) -> (r: Option<String>)
    requires
        totals_fit(*m),
    ensures
        (m.quiet && m.results_count_spec(sev, conf) == 0) ==> r is None,
        !(m.quiet && m.results_count_spec(sev, conf) == 0) ==> r is Some && exists|l: IssueList| issue_list_of(*m, sev, conf, l)
            && r.unwrap()@ == seq_join(report_bits(*m, started@, results_text(l, lines as int, false), false), seq!['\n']) + seq!['\n'],
{
    report_text(m, sev, conf, lines, started, false)
}

/// The totals' value of the metric label `<criterion>.<RANK>` is the
/// count of that criterion (severity first, then confidence) and rank.
proof fn lemma_metric_label_value(fm: crate::engine::metrics::FileMetrics, crit: int, rank: int)
    requires
        0 <= crit < 2,
        0 <= rank < 4,
    ensures
        metric_value(fm, criteria_name(crit) + "."@ + rank_name(rank_at(rank).unwrap())) == match fm.issues {
            Some(a) => Some(a@[crit]@[rank]),
            None => None::<u64>,
        },
{
    reveal_strlit("SEVERITY");
    reveal_strlit("CONFIDENCE");
    reveal_strlit(".");
    reveal_strlit("UNDEFINED");
    reveal_strlit("LOW");
    reveal_strlit("MEDIUM");
    reveal_strlit("HIGH");
    reveal_strlit("loc");
    reveal_strlit("nosec");
    reveal_strlit("skipped_tests");
    let name = criteria_name(crit);
    let r = rank_at(rank).unwrap();
    let rn = rank_name(r);
    let label = name + "."@ + rn;
    let n = name.len() as int;
    assert(forall|j: int| 0 <= j < n ==> name[j] != '.');
    assert(label[n] == '.');
    assert forall|j: int| 0 <= j < n implies label[j] != '.' by {
        assert(label[j] == name[j]);
    }
    assert(label[0] == name[0]);
    assert(label != "loc"@ && label != "nosec"@ && label != "skipped_tests"@) by {
        assert("loc"@[0] == 'l' && "nosec"@[0] == 'n' && "skipped_tests"@[0] == 's');
    }
    assert(label.contains('.'));
    let k = choose|k: int| 0 <= k < label.len() && label[k] == '.' && forall|j: int| 0 <= j < k ==> label[j] != '.';
    assert(k == n) by {
        if k < n {
            assert(label[k] == name[k]);
        }
        if n < k {
            assert(label[n] != '.');
        }
    }
    assert(label.subrange(0, k) =~= name);
    assert(label.skip(k + 1) =~= rn);
    assert(crate::engine::metrics::criteria_index(name) == Some(crit));
    assert(crate::constants::parse_rank(rn) == Some(r)) by {
        assert("UNDEFINED"@.len() != "LOW"@.len() && "UNDEFINED"@.len() != "MEDIUM"@.len() && "UNDEFINED"@.len() != "HIGH"@.len());
        assert("LOW"@.len() != "MEDIUM"@.len() && "LOW"@.len() != "HIGH"@.len() && "MEDIUM"@.len() != "HIGH"@.len());
    }
    assert(crate::constants::rank_index(r) == rank);
}

/// Under the heading of each criterion of `Run metrics:` (severity,
/// then confidence) the line of each rank shows the run's total count of
/// issues of that criterion and rank: the first block the severity
/// counts, the second the confidence counts.
pub proof fn lemma_metrics_lines_show_counts(m: Manager, crit: int, rank: int)
    requires
        0 <= crit < 2,
        0 <= rank < 4,
    ensures
        metric_or_zero(m, crit, rank) == match m.metrics.totals.issues {
            Some(a) => a@[crit]@[rank] as nat,
            None => 0,
        },
        metric_or_zero(m, 0, rank) == match metric_value(m.metrics.totals, "SEVERITY."@ + rank_name(rank_at(rank).unwrap())) {
            Some(v) => v as nat,
            None => 0,
        },
        metric_or_zero(m, 1, rank) == match metric_value(m.metrics.totals, "CONFIDENCE."@ + rank_name(rank_at(rank).unwrap())) {
            Some(v) => v as nat,
            None => 0,
        },
        criteria_lower(0) == "severity"@ && criteria_lower(1) == "confidence"@,
{
    lemma_metric_label_value(m.metrics.totals, crit, rank);
    reveal_strlit("SEVERITY");
    reveal_strlit("CONFIDENCE");
    reveal_strlit(".");
    reveal_strlit("SEVERITY.");
    reveal_strlit("CONFIDENCE.");
    assert("SEVERITY."@ =~= criteria_name(0) + "."@);
    assert("CONFIDENCE."@ =~= criteria_name(1) + "."@);
    lemma_metric_label_value(m.metrics.totals, 0, rank);
    lemma_metric_label_value(m.metrics.totals, 1, rank);
}

/// The `Code scanned:` lines of a report show the totals' `loc` and
/// `nosec` metrics, in that order, and its last lines name each skipped
/// file with its reason, in order, under a heading that counts them.
pub proof fn lemma_report_counts_lines(m: Manager, started: Seq<char>, results: Seq<char>, styled: bool, k: int)
    ensures
        ({
            let b = report_bits(m, started, results, styled);
            let o: int = if m.verbose { 1 } else { 0 };
            &&& b[o + 4] == "\tTotal lines of code: "@ + decimal(metric_value(m.metrics.totals, "loc"@).unwrap() as nat)
            &&& b[o + 5] == "\tTotal lines skipped (#nosec): "@ + decimal(metric_value(m.metrics.totals, "nosec"@).unwrap() as nat)
            &&& b[b.len() - m.skipped@.len() - 1] == heading(styled, "Files skipped ("@ + decimal(m.skipped@.len()) + "):"@)
            &&& 0 <= k < m.skipped@.len() ==> b[b.len() - m.skipped@.len() + k] == "\t"@ + m.skipped@[k].0@ + " ("@
                + m.skipped@[k].1@ + ")"@
        }),
{
    reveal_strlit("loc");
    reveal_strlit("nosec");
    assert("loc"@ != "nosec"@) by {
        assert("loc"@.len() != "nosec"@.len());
    }
    let b = report_bits(m, started, results, styled);
    let o: int = if m.verbose { 1 } else { 0 };
    let head = seq![heading(styled, "Run started:"@ + started)] + (if m.verbose {
        seq![seq_join(verbose_bits(m, styled), seq!['\n'])]
    } else {
        Seq::empty()
    });
    assert(head.len() == o + 1);
    assert(b[o + 4] == "\tTotal lines of code: "@ + decimal(m.metrics.totals.loc as nat));
    assert(b[o + 5] == "\tTotal lines skipped (#nosec): "@ + decimal(m.metrics.totals.nosec as nat));
}

} // verus!
