//! Reports of a run: the choice of formatter, and the text each one writes.
//!
//! Writing the text to standard output or to a file is the caller's part:
//! [`output_results`] says what to write, where, and what to log after.

use vstd::prelude::*;
use crate::constants::Rank;
use crate::engine::manager::{Manager, selected};
use crate::formatters::text::totals_fit;
use crate::text::{push_str, str_eq, to_owned_string};
use crate::engine::json::JsonValue;
use crate::pycompat::json_dump::{dump, sorted_json};

pub mod text;
pub mod screen;
pub mod csv;
pub mod xml;
pub mod json;

verus! {

/// The formatter names, in registration order.
pub open spec fn formatter_names_spec() -> Seq<Seq<char>> {
    seq!["csv"@, "json"@, "txt"@, "xml"@, "html"@, "sarif"@, "screen"@, "yaml"@, "custom"@]
}

/// The formatters that accept a baseline, in registration order.
pub open spec fn baseline_formatters_spec() -> Seq<Seq<char>> {
    seq!["json"@, "txt"@, "html"@, "screen"@, "custom"@]
}

/// The formatter names.
pub fn formatter_names() -> (r: Vec<&'static str>)
    ensures
        r@.map_values(|s: &'static str| s@) == formatter_names_spec(),
{
    let v = vec!["csv", "json", "txt", "xml", "html", "sarif", "screen", "yaml", "custom"];
    assert(v@.map_values(|s: &'static str| s@) =~= formatter_names_spec());
    v
}

/// The formatters that accept a baseline.
pub fn baseline_formatters() -> (r: Vec<&'static str>)
    ensures
        r@.map_values(|s: &'static str| s@) == baseline_formatters_spec(),
{
    let v = vec!["json", "txt", "html", "screen", "custom"];
    assert(v@.map_values(|s: &'static str| s@) =~= baseline_formatters_spec());
    v
}

/// Whether `f` names a formatter.
pub fn is_formatter(f: &str) -> (r: bool)
    ensures
        r == formatter_names_spec().contains(f@),
{
    let names = formatter_names();
    let mut i: usize = 0;
    while i < names.len()
        invariant
            i <= names@.len(),
            names@.map_values(|s: &'static str| s@) == formatter_names_spec(),
            forall|j: int| 0 <= j < i ==> formatter_names_spec()[j] != f@,
        decreases names@.len() - i,
    {
        assert(names@.map_values(|s: &'static str| s@)[i as int] == names@[i as int]@);
        if str_eq(names[i], f) {
            return true;
        }
        i = i + 1;
    }
    false
}

/// The default formatter: `screen` on a terminal where colour is allowed
/// (`NO_COLOR` unset and `TERM` not `dumb`), else `txt`.
pub fn default_format(stdout_is_terminal: bool, no_color_set: bool, term: Option<&str>) -> (r: &'static str)
    ensures
        r@ == (if stdout_is_terminal && !no_color_set && !(term is Some && term.unwrap()@ == "dumb"@) {
            "screen"@
        } else {
            "txt"@
        }),
{
    let dumb = match term {
        Some(t) => str_eq(t, "dumb"),
        None => false,
    };
    if stdout_is_terminal && !no_color_set && !dumb {
        "screen"
    } else {
        "txt"
    }
}

/// The formatter used for a requested `format`: itself when it names one,
/// else `fallback` (the default formatter).
pub open spec fn chosen_format(format: Seq<char>, fallback: Seq<char>) -> Seq<char> {
    if formatter_names_spec().contains(format) { format } else { fallback }
}

/// Whether a formatter is one whose report this library writes.
pub open spec fn is_written(f: Seq<char>) -> bool {
    f == "csv"@ || f == "json"@ || f == "txt"@ || f == "xml"@ || f == "screen"@
}

/// What the info line logged after the report says, and under which
/// logger, when the report went to the file `name`.
pub open spec fn written_notice(f: Seq<char>, name: Seq<char>) -> (Seq<char>, Seq<char>) {
    if f == "csv"@ {
        ("csv"@, "CSV output written to file: "@ + name)
    } else if f == "json"@ {
        ("json"@, "JSON output written to file: "@ + name)
    } else if f == "xml"@ {
        ("xml"@, "XML output written to file: "@ + name)
    } else if f == "txt"@ {
        ("text"@, "Text output written to file: "@ + name)
    } else {
        ("screen"@, "Screen formatter output was not written to file: "@ + name + ", consider '-f txt'"@)
    }
}

/// Whether `t` is the text that formatter `f` writes for run `m`: the
/// `csv` and `xml` documents of the selected issues; the `json` document
/// at time `generated_at`; for `txt` and `screen` (styled), nothing in
/// quiet mode without results, else the report's lines.
pub open spec fn report_text_of(
    m: Manager,
    sev: Rank,
    conf: Rank,
    lines: int,
    started: Seq<char>,
    generated_at: Seq<char>,
    f: Seq<char>,
    t: Option<String>,
) -> bool {
    &&& f == "json"@ ==> t is Some && exists|doc: JsonValue, w: JsonValue| #![trigger json::json_doc(m, sev, conf, lines, generated_at, doc), sorted_json(doc, w)]
        {
            &&& json::json_doc(m, sev, conf, lines, generated_at, doc)
            &&& sorted_json(doc, w)
            &&& t.unwrap()@ == dump(w, Seq::empty())
        }
    &&& f == "csv"@ ==> t is Some && t.unwrap()@ == crate::pycompat::csv::csv_row(csv::header_fields())
        + csv::issue_rows(selected(m, sev, conf))
    &&& f == "xml"@ ==> t is Some && t.unwrap()@ == xml::xml_document(selected(m, sev, conf))
    &&& (f == "txt"@ || f == "screen"@) ==> ((m.quiet && m.results_count_spec(sev, conf) == 0) <==> t is None)
    &&& (f == "txt"@ || f == "screen"@) && t is Some ==> exists|l: crate::engine::manager::IssueList|
        text::issue_list_of(m, sev, conf, l) && t.unwrap()@ == crate::text::seq_join(
            text::report_bits(m, started, text::results_text(l, lines, f == "screen"@), f == "screen"@),
            seq!['\n'],
        ) + seq!['\n']
}

fn render(m: &Manager, sev: Rank, conf: Rank, lines: i64, started: &str, generated_at: &str, f: &str) -> (r: Option<String>)
    requires
        is_written(f@),
        totals_fit(*m),
    ensures
        report_text_of(*m, sev, conf, lines as int, started@, generated_at@, f@, r),
{
    proof {
        reveal_strlit("json");
        reveal_strlit("csv");
        reveal_strlit("xml");
        reveal_strlit("txt");
        reveal_strlit("screen");
        assert("csv"@[0] == 'c' && "xml"@[0] == 'x' && "txt"@[0] == 't' && "screen"@[0] == 's' && "json"@[0] == 'j');
    }
    if str_eq(f, "csv") {
        Some(csv::report(m, sev, conf))
    } else if str_eq(f, "json") {
        Some(json::report(m, sev, conf, lines, generated_at))
    } else if str_eq(f, "xml") {
        Some(xml::report(m, sev, conf))
    } else if str_eq(f, "txt") {
        text::report(m, sev, conf, lines, started)
    } else {
        screen::report_to(m, sev, conf, lines, started)
    }
}

fn notice(f: &str, name: &str) -> (r: (String, String))
    ensures
        r.0@ == written_notice(f@, name@).0,
        r.1@ == written_notice(f@, name@).1,
{
    let (logger, lead) = if str_eq(f, "csv") {
        ("csv", "CSV output written to file: ")
    } else if str_eq(f, "json") {
        ("json", "JSON output written to file: ")
    } else if str_eq(f, "xml") {
        ("xml", "XML output written to file: ")
    } else if str_eq(f, "txt") {
        ("text", "Text output written to file: ")
    } else {
        ("screen", "Screen formatter output was not written to file: ")
    };
    let mut msg = to_owned_string(lead);
    push_str(&mut msg, name);
    if !str_eq(f, "csv") && !str_eq(f, "json") && !str_eq(f, "xml") && !str_eq(f, "txt") {
        push_str(&mut msg, ", consider '-f txt'");
    }
    (to_owned_string(logger), msg)
}

/// What a run writes as its report.
pub struct Rendered {
    /// The formatter used.
    pub format: String,
    /// The text to write; `None` when nothing is written.
    pub text: Option<String>,
    /// Whether the text goes to standard output whatever the output asked
    /// for (the `screen` formatter).
    pub to_stdout: bool,
    /// Logger name and message of the info line to log once the text is
    /// written, when the output is a file.
    pub notice: Option<(String, String)>,
}

/// `output_results(lines, sev_level, conf_level, output, format, template)`:
/// the report of formatter `format` (or of `fallback` when `format` names
/// none). `out_name` is the output file, `None` for standard output;
/// `started` is the time of the run, `generated_at` that of the report in
/// the form `json` writes it.
pub fn output_results(
    m: &Manager,
    lines: i64,
    sev: Rank,
    conf: Rank,
    out_name: Option<&str>,
    format: &str,
    fallback: &str,
    started: &str,
    generated_at: &str,
) -> (r: Rendered)
    requires
        is_written(chosen_format(format@, fallback@)),
        totals_fit(*m),
    ensures
        r.format@ == chosen_format(format@, fallback@),
        r.to_stdout == (r.format@ == "screen"@),
        report_text_of(*m, sev, conf, lines as int, started@, generated_at@, r.format@, r.text),
        match out_name {
            Some(n) => r.notice is Some && r.notice.unwrap().0@ == written_notice(r.format@, n@).0
                && r.notice.unwrap().1@ == written_notice(r.format@, n@).1,
            None => r.notice is None,
        },
{
    let f = if is_formatter(format) { to_owned_string(format) } else { to_owned_string(fallback) };
    let text = render(m, sev, conf, lines, started, generated_at, f.as_str());
    let to_stdout = str_eq(f.as_str(), "screen");
    let note = match out_name {
        Some(n) => Some(notice(f.as_str(), n)),
        None => None,
    };
    Rendered { format: f, text, to_stdout, notice: note }
}

/// The error reported when the report could not be written.
pub fn output_error(format: &str, err: &str) -> (r: String)
    ensures
        r@ == "Unable to output report using '"@ + format@ + "' formatter: "@ + err@,
{
    let mut s = to_owned_string("Unable to output report using '");
    push_str(&mut s, format);
    push_str(&mut s, "' formatter: ");
    push_str(&mut s, err);
    s
}

} // verus!
