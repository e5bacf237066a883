//! The `csv` report: a header row, then one row per selected issue.

use vstd::prelude::*;
use crate::constants::{Rank, rank_name};
use crate::engine::docs_utils::{docs_url, get_url};
use crate::engine::issue::{Issue, cwe_link, range_lines};
use crate::engine::manager::{Manager, derefs, selected, selected_issues};
use crate::pycompat::csv::{csv_row, write_row};
use crate::text::{decimal, decimal_string, push_decimal, push_str, seq_join, to_owned_string, views_of};

verus! {

/// `repr(list(values))` for integers: `[4]`, `[3, 4, 5]`, `[]`.
pub open spec fn list_repr(values: Seq<u32>) -> Seq<char> {
    seq!['['] + seq_join(Seq::new(values.len(), |k: int| decimal(values[k] as nat)), ", "@) + seq![']']
}

/// The column names.
pub open spec fn header_fields() -> Seq<Seq<char>> {
    seq![
        "filename"@, "test_name"@, "test_id"@, "issue_severity"@, "issue_confidence"@, "issue_cwe"@,
        "issue_text"@, "line_number"@, "col_offset"@, "end_col_offset"@, "line_range"@, "more_info"@,
    ]
}

/// The fields of an issue's row.
pub open spec fn issue_fields(i: Issue) -> Seq<Seq<char>> {
    seq![
        i.fname@, i.test@, i.test_id@, rank_name(i.severity), rank_name(i.confidence),
        if i.cwe.0 != 0 { cwe_link(i.cwe.0 as nat) } else { Seq::empty() },
        i.text@, decimal(i.lineno as nat), decimal(i.col_offset as nat), decimal(i.end_col_offset as nat),
        list_repr(range_lines(i.linerange)), docs_url(i.test_id@),
    ]
}

/// The rows of a sequence of issues.
pub open spec fn issue_rows(s: Seq<Issue>) -> Seq<char>
    decreases s.len(),
{
    if s.len() == 0 {
        Seq::empty()
    } else {
        issue_rows(s.drop_last()) + csv_row(issue_fields(s.last()))
    }
}

/// `repr(list(values))` for the line numbers of a range.
pub fn python_list_repr(values: &Vec<u32>) -> (r: String)
    ensures
        r@ == list_repr(values@),
{
    let n = values.len();
    let ghost parts = Seq::new(n as nat, |k: int| decimal(values@[k] as nat));
    let mut s = String::new();
    let mut i: usize = 0;
    while i < n
        invariant
            n == values@.len(),
            i <= n,
            parts == Seq::new(n as nat, |k: int| decimal(values@[k] as nat)),
            s@ == seq_join(parts.subrange(0, i as int), ", "@),
        decreases n - i,
    {
        let ghost t = parts.subrange(0, i + 1);
        assert(t.drop_last() =~= parts.subrange(0, i as int));
        if i > 0 {
            push_str(&mut s, ", ");
        }
        push_decimal(&mut s, values[i] as u64);
        proof {
            if i == 0 {
                assert(s@ =~= t[0]);
            }
        }
        i = i + 1;
    }
    assert(parts.subrange(0, n as int) =~= parts);
    let mut out = String::new();
    push_str(&mut out, "[");
    push_str(&mut out, s.as_str());
    push_str(&mut out, "]");
    proof {
        reveal_strlit("[");
        reveal_strlit("]");
    }
    assert(out@ =~= list_repr(values@));
    out
}

fn header_row() -> (r: String)
    ensures
        r@ == csv_row(header_fields()),
{
    let names = vec![
        to_owned_string("filename"), to_owned_string("test_name"), to_owned_string("test_id"),
        to_owned_string("issue_severity"), to_owned_string("issue_confidence"), to_owned_string("issue_cwe"),
        to_owned_string("issue_text"), to_owned_string("line_number"), to_owned_string("col_offset"),
        to_owned_string("end_col_offset"), to_owned_string("line_range"), to_owned_string("more_info"),
    ];
    assert(views_of(names@) =~= header_fields());
    write_row(&names)
}

fn issue_row(i: &Issue) -> (r: String)
    ensures
        r@ == csv_row(issue_fields(*i)),
{
    let fields = vec![
        i.fname.clone(), i.test.clone(), i.test_id.clone(), to_owned_string(i.severity.as_str()),
        to_owned_string(i.confidence.as_str()), i.cwe.link(), i.text.clone(), decimal_string(i.lineno as u64),
        decimal_string(i.col_offset as u64), decimal_string(i.end_col_offset as u64),
        python_list_repr(&i.linerange.iter()), get_url(i.test_id.as_str()),
    ];
    assert(views_of(fields@) =~= issue_fields(*i));
    write_row(&fields)
}

/// `report(manager, fileobj, sev_level, conf_level, lines)`: the text of the
/// `csv` report.
pub fn report(m: &Manager, sev: Rank, conf: Rank) -> (r: String)
    ensures
        r@ == csv_row(header_fields()) + issue_rows(selected(*m, sev, conf)),
{
    let mut out = header_row();
    let issues = selected_issues(m, sev, conf);
    let ghost base = out@;
    let mut k: usize = 0;
    while k < issues.len()
        invariant
            k <= issues@.len(),
            out@ == base + issue_rows(derefs(issues@).subrange(0, k as int)),
        decreases issues@.len() - k,
    {
        let ghost t = derefs(issues@).subrange(0, k + 1);
        assert(t.drop_last() =~= derefs(issues@).subrange(0, k as int));
        let row = issue_row(issues[k]);
        push_str(&mut out, row.as_str());
        assert(out@ =~= base + issue_rows(t));
        k = k + 1;
    }
    assert(derefs(issues@).subrange(0, issues@.len() as int) =~= derefs(issues@));
    out
}

/// Each field of an issue's row sits under the column that names it: the
/// file name under `filename`, the severity's name under
/// `issue_severity`, the confidence's under `issue_confidence`, and so on,
/// with as many fields as columns.
pub proof fn lemma_row_fields_under_their_columns(i: Issue, k: int)
    requires
        0 <= k < header_fields().len(),
    ensures
        issue_fields(i).len() == header_fields().len(),
        header_fields()[k] == "filename"@ ==> issue_fields(i)[k] == i.fname@,
        header_fields()[k] == "test_name"@ ==> issue_fields(i)[k] == i.test@,
        header_fields()[k] == "test_id"@ ==> issue_fields(i)[k] == i.test_id@,
        header_fields()[k] == "issue_severity"@ ==> issue_fields(i)[k] == rank_name(i.severity),
        header_fields()[k] == "issue_confidence"@ ==> issue_fields(i)[k] == rank_name(i.confidence),
        header_fields()[k] == "issue_text"@ ==> issue_fields(i)[k] == i.text@,
        header_fields()[k] == "line_number"@ ==> issue_fields(i)[k] == decimal(i.lineno as nat),
        header_fields()[k] == "col_offset"@ ==> issue_fields(i)[k] == decimal(i.col_offset as nat),
        header_fields()[k] == "end_col_offset"@ ==> issue_fields(i)[k] == decimal(i.end_col_offset as nat),
        header_fields()[k] == "line_range"@ ==> issue_fields(i)[k] == list_repr(range_lines(i.linerange)),
        header_fields()[k] == "more_info"@ ==> issue_fields(i)[k] == docs_url(i.test_id@),
{
    reveal_strlit("filename");
    reveal_strlit("test_name");
    reveal_strlit("test_id");
    reveal_strlit("issue_severity");
    reveal_strlit("issue_confidence");
    reveal_strlit("issue_cwe");
    reveal_strlit("issue_text");
    reveal_strlit("line_number");
    reveal_strlit("col_offset");
    reveal_strlit("end_col_offset");
    reveal_strlit("line_range");
    reveal_strlit("more_info");
    let h = header_fields();
    assert(h.len() == 12);
    assert forall|a: int, b: int| 0 <= a < b < 12 implies #[trigger] h[a] != #[trigger] h[b] by {
        if h[a] == h[b] {
            assert(h[a].len() == h[b].len());
            assert(h[a][0] == h[b][0]);
            assert(h[a][h[a].len() - 1] == h[b][h[b].len() - 1]);
            assert(h[a][6] == h[b][6]);
        }
    }
}

} // verus!
