//! The `xml` report: a JUnit-like test suite with one failing test case per
//! selected issue.

use vstd::prelude::*;
use crate::constants::{Rank, rank_name};
use crate::engine::docs_utils::{docs_url, get_url};
use crate::engine::issue::{Issue, cwe_text};
use crate::engine::manager::{Manager, derefs, selected, selected_issues};
use crate::pycompat::xml::{escape_attrib, escape_cdata, escaped};
use crate::text::{decimal, push_decimal, push_str};

verus! {

/// The body of an issue's `error` element, before escaping.
pub open spec fn error_body(i: Issue) -> Seq<char> {
    "Test ID: "@ + i.test_id@ + " Severity: "@ + rank_name(i.severity) + " Confidence: "@ + rank_name(i.confidence)
        + "\nCWE: "@ + cwe_text(i.cwe) + "\n"@ + i.text@ + "\nLocation "@ + i.fname@ + ":"@ + decimal(i.lineno as nat)
}

/// An issue's `testcase` element.
pub open spec fn test_case(i: Issue) -> Seq<char> {
    "<testcase classname=\""@ + escaped(i.fname@, true) + "\" name=\""@ + escaped(i.test@, true) + "\">"@
        + "<error more_info=\""@ + escaped(docs_url(i.test_id@), true) + "\" type=\""@
        + escaped(rank_name(i.severity), true) + "\" message=\""@ + escaped(i.text@, true) + "\">"@
        + escaped(error_body(i), false) + "</error>"@ + "</testcase>"@
}

/// The `testcase` elements of a sequence of issues.
pub open spec fn test_cases(s: Seq<Issue>) -> Seq<char>
    decreases s.len(),
{
    if s.len() == 0 {
        Seq::empty()
    } else {
        test_cases(s.drop_last()) + test_case(s.last())
    }
}

/// The whole document for the issues `s`.
pub open spec fn xml_document(s: Seq<Issue>) -> Seq<char> {
    "<?xml version='1.0' encoding='utf-8'?>\n"@ + if s.len() == 0 {
        "<testsuite name=\"bandit\" tests=\"0\" />"@
    } else {
        "<testsuite name=\"bandit\" tests=\""@ + decimal(s.len()) + "\">"@ + test_cases(s) + "</testsuite>"@
    }
}

fn error_body_text(i: &Issue) -> (r: String)
    ensures
        r@ == error_body(*i),
{
    let mut s = String::new();
    push_str(&mut s, "Test ID: ");
    push_str(&mut s, i.test_id.as_str());
    push_str(&mut s, " Severity: ");
    push_str(&mut s, i.severity.as_str());
    push_str(&mut s, " Confidence: ");
    push_str(&mut s, i.confidence.as_str());
    push_str(&mut s, "\nCWE: ");
    let c = i.cwe.to_string();
    push_str(&mut s, c.as_str());
    push_str(&mut s, "\n");
    push_str(&mut s, i.text.as_str());
    push_str(&mut s, "\nLocation ");
    push_str(&mut s, i.fname.as_str());
    push_str(&mut s, ":");
    push_decimal(&mut s, i.lineno as u64);
    assert(s@ =~= error_body(*i));
    s
}

fn test_case_text(i: &Issue) -> (r: String)
    ensures
        r@ == test_case(*i),
{
    let mut s = String::new();
    push_str(&mut s, "<testcase classname=\"");
    push_str(&mut s, escape_attrib(i.fname.as_str()).as_str());
    push_str(&mut s, "\" name=\"");
    push_str(&mut s, escape_attrib(i.test.as_str()).as_str());
    push_str(&mut s, "\">");
    push_str(&mut s, "<error more_info=\"");
    push_str(&mut s, escape_attrib(get_url(i.test_id.as_str()).as_str()).as_str());
    push_str(&mut s, "\" type=\"");
    push_str(&mut s, escape_attrib(i.severity.as_str()).as_str());
    push_str(&mut s, "\" message=\"");
    push_str(&mut s, escape_attrib(i.text.as_str()).as_str());
    push_str(&mut s, "\">");
    push_str(&mut s, escape_cdata(error_body_text(i).as_str()).as_str());
    push_str(&mut s, "</error>");
    push_str(&mut s, "</testcase>");
    assert(s@ =~= test_case(*i));
    s
}

/// `report(manager, fileobj, sev_level, conf_level, lines)`: the bytes of
/// the `xml` report, as text.
#[verifier::rlimit(50)]
pub fn report(m: &Manager, sev: Rank, conf: Rank) -> (r: String)
    ensures
        r@ == xml_document(selected(*m, sev, conf)),
{
    let issues = selected_issues(m, sev, conf);
    let mut out = String::new();
    push_str(&mut out, "<?xml version='1.0' encoding='utf-8'?>\n");
    if issues.len() == 0 {
        push_str(&mut out, "<testsuite name=\"bandit\" tests=\"0\" />");
        assert(out@ =~= xml_document(selected(*m, sev, conf)));
        return out;
    }
    push_str(&mut out, "<testsuite name=\"bandit\" tests=\"");
    push_decimal(&mut out, issues.len() as u64);
    push_str(&mut out, "\">");
    let ghost base = out@;
    let mut k: usize = 0;
    while k < issues.len()
        invariant
            k <= issues@.len(),
            out@ == base + test_cases(derefs(issues@).subrange(0, k as int)),
        decreases issues@.len() - k,
    {
        let ghost t = derefs(issues@).subrange(0, k + 1);
        assert(t.drop_last() =~= derefs(issues@).subrange(0, k as int));
        let c = test_case_text(issues[k]);
        push_str(&mut out, c.as_str());
        assert(out@ =~= base + test_cases(t));
        k = k + 1;
    }
    assert(derefs(issues@).subrange(0, issues@.len() as int) =~= derefs(issues@));
    push_str(&mut out, "</testsuite>");
    assert(derefs(issues@).len() == issues@.len());
    assert(out@ =~= xml_document(selected(*m, sev, conf)));
    out
}

/// In an issue's `error` element the `Severity:` label is followed by the
/// name of the issue's severity, the `Confidence:` label by that of its
/// confidence, and the element's `type` is the severity's name.
pub proof fn lemma_error_labels_name_their_ranks(i: Issue)
    ensures
        exists|p: Seq<char>, q: Seq<char>|
            error_body(i) == p + " Severity: "@ + rank_name(i.severity) + " Confidence: "@ + rank_name(i.confidence) + q,
        exists|p: Seq<char>, q: Seq<char>|
            test_case(i) == p + "\" type=\""@ + escaped(rank_name(i.severity), true) + "\" message=\""@ + q,
{
    let p = "Test ID: "@ + i.test_id@;
    let q = "\nCWE: "@ + cwe_text(i.cwe) + "\n"@ + i.text@ + "\nLocation "@ + i.fname@ + ":"@ + decimal(i.lineno as nat);
    assert(error_body(i) =~= p + " Severity: "@ + rank_name(i.severity) + " Confidence: "@ + rank_name(i.confidence) + q);
    let p2 = "<testcase classname=\""@ + escaped(i.fname@, true) + "\" name=\""@ + escaped(i.test@, true) + "\">"@
        + "<error more_info=\""@ + escaped(docs_url(i.test_id@), true);
    let q2 = escaped(i.text@, true) + "\">"@ + escaped(error_body(i), false) + "</error>"@ + "</testcase>"@;
    assert(test_case(i) =~= p2 + "\" type=\""@ + escaped(rank_name(i.severity), true) + "\" message=\""@ + q2);
}

} // verus!
