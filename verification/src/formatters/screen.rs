//! The `screen` report: the `txt` layout with ANSI colours (headings in
//! magenta, issues in the colour of their severity), without the line on
//! tests skipped by name. It always goes to standard output.

use vstd::prelude::*;
use crate::constants::Rank;
use crate::engine::issue::Issue;
use crate::engine::manager::{IssueList, Manager};
use crate::formatters::text::{
    color_code, color_str, heading, heading_text, issue_block, issue_block_text, issue_list_of, metrics_bits,
    metrics_section, report_bits, report_text, results_section, results_text, totals_fit, verbose_bits,
    verbose_section,
};
use crate::text::{push_str, seq_join};

verus! {

/// `COLOR[rank]`: the ANSI colour of a severity (`UNDEFINED` has the
/// default colour).
pub fn color_for(rank: Rank) -> (r: &'static str)
    ensures
        r@ == color_code(rank),
{
    color_str(rank)
}

/// `header(text)`: the text in the heading colour.
pub fn header(text: &str) -> (r: String)
    ensures
        r@ == heading(true, text@),
{
    heading_text(true, text)
}

/// `get_verbose_details(manager)`.
pub fn get_verbose_details(m: &Manager) -> (r: String)
    requires
        totals_fit(*m),
    ensures
        r@ == seq_join(verbose_bits(*m, true), seq!['\n']),
{
    verbose_section(m, true)
}

/// `get_metrics(manager)`.
pub fn get_metrics(m: &Manager) -> (r: String)
    ensures
        r@ == seq_join(metrics_bits(*m, true), seq!['\n']),
{
    metrics_section(m, true)
}

/// `_output_issue_str(issue, indent, show_lineno, show_code, lines)`.
pub fn output_issue_str(issue: &Issue, indent: &str, show_lineno: bool, show_code: bool, lines: i64) -> (r: String)
    ensures
        r@ == issue_block(*issue, indent@, show_lineno, show_code, lines as int, true),
{
    issue_block_text(issue, indent, show_lineno, show_code, lines, true)
}

/// `get_results(manager, sev_level, conf_level, lines)`.
pub fn get_results(m: &Manager, sev: Rank, conf: Rank, lines: i64) -> (r: String)
    ensures
        exists|l: IssueList| issue_list_of(*m, sev, conf, l) && r@ == results_text(l, lines as int, true),
{
    let l = m.get_issue_list(sev, conf);
    results_section(&l, lines, true)
}

/// The text the report prints, `None` when nothing is printed (quiet mode
/// without results). `started` is the time of the run.
pub fn report_to(m: &Manager, sev: Rank, conf: Rank, lines: i64, started: &str) -> (r: Option<String>)
    requires
        totals_fit(*m),
    ensures
        (m.quiet && m.results_count_spec(sev, conf) == 0) ==> r is None,
        !(m.quiet && m.results_count_spec(sev, conf) == 0) ==> r is Some && exists|l: IssueList| issue_list_of(*m, sev, conf, l)
            && r.unwrap()@ == seq_join(report_bits(*m, started@, results_text(l, lines as int, true), true), seq!['\n']) + seq!['\n'],
{
    report_text(m, sev, conf, lines, started, true)
}

/// `report(...)`: the text printed on standard output (as [`report_to`]),
/// and, when an output file `out_name` was asked for, the hint logged
/// instead of writing it.
pub fn report(m: &Manager, sev: Rank, conf: Rank, lines: i64, started: &str, out_name: Option<&str>) -> (r: (
    Option<String>,
    Option<String>,
))
    requires
        totals_fit(*m),
    ensures
        (m.quiet && m.results_count_spec(sev, conf) == 0) ==> r.0 is None,
        !(m.quiet && m.results_count_spec(sev, conf) == 0) ==> r.0 is Some && exists|l: IssueList| issue_list_of(*m, sev, conf, l)
            && r.0.unwrap()@ == seq_join(report_bits(*m, started@, results_text(l, lines as int, true), true), seq!['\n']) + seq!['\n'],
        match out_name {
            Some(n) => r.1 is Some && r.1.unwrap()@ == "Screen formatter output was not written to file: "@ + n@ + ", consider '-f txt'"@,
            None => r.1 is None,
        },
{
    let text = report_to(m, sev, conf, lines, started);
    let hint = match out_name {
        Some(n) => {
            let mut s = String::from_str("Screen formatter output was not written to file: ");
            push_str(&mut s, n);
            push_str(&mut s, ", consider '-f txt'");
            Some(s)
        },
        None => None,
    };
    (text, hint)
}

} // verus!
