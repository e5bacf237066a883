//! The `json` report: the skipped files, the time of the report, the
//! metrics and the selected issues, written as `json.dumps` writes them
//! with sorted keys and an indent of two.

use vstd::prelude::*;
use crate::constants::Rank;
use crate::engine::docs_utils::{docs_url, get_url};
use crate::engine::issue::Issue;
use crate::engine::json::{issue_entries, issue_json, is_text, key_at, val_at, JsonValue};
use crate::engine::manager::{derefs, AggType, IssueList, Manager};
use crate::formatters::text::issue_list_of;
use crate::engine::metrics::{file_json, metrics_json, totals_json, use_type_json, FileMetrics};
use crate::engine::json::{cwe_json, range_json, uint};
use crate::engine::issue::{Cwe, LineRange};
use crate::pycompat::json_dump::lemma_sorted_no_float;
use crate::pycompat::keyed_sort::lemma_sort_members;
use crate::pycompat::json_dump::{dump, dumps, has_float, sorted_json};
use crate::pycompat::keyed_sort::{sort_by_key, sort_keyed};
use crate::text::{copy_string, to_owned_string};

verus! {

/// The number of issues of a list.
pub open spec fn list_len(l: IssueList) -> nat {
    match l {
        IssueList::Plain(v) => v@.len(),
        IssueList::Baseline(v) => v@.len(),
    }
}

/// Issue `k` of a list.
pub open spec fn list_issue(l: IssueList, k: int) -> Issue {
    match l {
        IssueList::Plain(v) => *v@[k],
        IssueList::Baseline(v) => *v@[k].0,
    }
}

/// The candidates of issue `k` of a list (none in a plain list).
pub open spec fn list_candidates(l: IssueList, k: int) -> Seq<Issue> {
    match l {
        IssueList::Plain(_) => Seq::empty(),
        IssueList::Baseline(v) => derefs(v@[k].1@),
    }
}

/// The key the results are sorted by: the test's name when aggregating by
/// vulnerability, else the file name.
pub open spec fn result_key(agg: AggType, i: Issue) -> Seq<char> {
    if agg == AggType::Vuln { i.test@ } else { i.fname@ }
}

/// An entry of the `errors` list: `{"filename": .., "reason": ..}`.
pub open spec fn error_item(sk: (String, String), v: JsonValue) -> bool {
    &&& v is Object
    &&& v->Object_0@.len() == 2
    &&& key_at(v, 0) == "filename"@ && is_text(val_at(v, 0), sk.0@)
    &&& key_at(v, 1) == "reason"@ && is_text(val_at(v, 1), sk.1@)
}

/// An entry of the `results` list: the issue's dictionary with its code,
/// then `more_info`, then (when there are several) its candidates.
pub open spec fn result_item(i: Issue, cands: Seq<Issue>, lines: int, v: JsonValue) -> bool {
    &&& v is Object
    &&& v->Object_0@.len() == if cands.len() > 1 { 14nat } else { 13nat }
    &&& issue_entries(i, true, lines, v->Object_0@.take(12))
    &&& key_at(v, 12) == "more_info"@ && is_text(val_at(v, 12), docs_url(i.test_id@))
    &&& cands.len() > 1 ==> {
        &&& key_at(v, 13) == "candidates"@
        &&& val_at(v, 13) is Array
        &&& val_at(v, 13)->Array_0@.len() == cands.len()
        &&& forall|k: int| 0 <= k < cands.len() ==> issue_json(cands[k], true, lines, #[trigger] val_at(v, 13)->Array_0@[k])
    }
}

/// The `results` list: the items of the issues of `l`, stably sorted by
/// [`result_key`].
pub open spec fn results_of(agg: AggType, l: IssueList, lines: int, v: JsonValue) -> bool {
    &&& v is Array
    &&& exists|p: Seq<(String, JsonValue)>| #![trigger sort_keyed(p)]
        {
            &&& p.len() == list_len(l)
            &&& v->Array_0@ == sort_keyed(p).map_values(|x: (String, JsonValue)| x.1)
            &&& forall|k: int| 0 <= k < p.len() ==> {
                &&& #[trigger] p[k].0@ == result_key(agg, list_issue(l, k))
                &&& result_item(list_issue(l, k), list_candidates(l, k), lines, p[k].1)
            }
        }
}

/// The report's document before its keys are sorted: `errors`,
/// `generated_at`, `metrics` and `results`.
pub open spec fn json_doc(m: Manager, sev: Rank, conf: Rank, lines: int, generated_at: Seq<char>, doc: JsonValue) -> bool {
    &&& doc is Object
    &&& doc->Object_0@.len() == 4
    &&& key_at(doc, 0) == "errors"@
    &&& val_at(doc, 0) is Array
    &&& val_at(doc, 0)->Array_0@.len() == m.skipped@.len()
    &&& forall|k: int| 0 <= k < m.skipped@.len() ==> error_item(m.skipped@[k], #[trigger] val_at(doc, 0)->Array_0@[k])
    &&& key_at(doc, 1) == "generated_at"@ && is_text(val_at(doc, 1), generated_at)
    &&& key_at(doc, 2) == "metrics"@ && metrics_json(m.metrics, val_at(doc, 2))
    &&& key_at(doc, 3) == "results"@
    &&& exists|l: IssueList| #![trigger issue_list_of(m, sev, conf, l)]
        issue_list_of(m, sev, conf, l) && results_of(m.agg_type, l, lines, val_at(doc, 3))
}

fn error_value(sk: &(String, String)) -> (v: JsonValue)
    ensures
        error_item(*sk, v),
{
    let mut e: Vec<(String, JsonValue)> = Vec::new();
    e.push((to_owned_string("filename"), JsonValue::Str(copy_string(&sk.0))));
    e.push((to_owned_string("reason"), JsonValue::Str(copy_string(&sk.1))));
    JsonValue::Object(e)
}

fn result_value(i: &Issue, cands: &Vec<&Issue>, lines: i64) -> (v: JsonValue)
    ensures
        result_item(*i, derefs(cands@), lines as int, v),
{
    let d = i.as_dict(true, lines);
    match d {
        JsonValue::Object(mut e) => {
            let ghost e0 = e@;
            e.push((to_owned_string("more_info"), JsonValue::Str(get_url(i.test_id.as_str()))));
            if cands.len() > 1 {
                let mut arr: Vec<JsonValue> = Vec::new();
                let mut k: usize = 0;
                while k < cands.len()
                    invariant
                        k <= cands@.len(),
                        arr@.len() == k,
                        forall|j: int| 0 <= j < k ==> issue_json(*cands@[j], true, lines as int, #[trigger] arr@[j]),
                    decreases cands@.len() - k,
                {
                    arr.push(cands[k].as_dict(true, lines));
                    k = k + 1;
                }
                e.push((to_owned_string("candidates"), JsonValue::Array(arr)));
            }
            assert(e@.take(12) =~= e0);
            let v = JsonValue::Object(e);
            assert(derefs(cands@).len() == cands@.len());
            v
        },
        other => {
            assert(false);
            other
        },
    }
}

fn values_of(p: Vec<(String, JsonValue)>) -> (r: Vec<JsonValue>)
    ensures
        r@ == p@.map_values(|x: (String, JsonValue)| x.1),
{
    let ghost all = p@;
    let n = p.len();
    let mut rest = p;
    let mut out: Vec<JsonValue> = Vec::new();
    let mut k: usize = 0;
    while rest.len() > 0
        invariant
            n == all.len(),
            k <= n,
            rest@ == all.skip(k as int),
            out@ == all.subrange(0, k as int).map_values(|x: (String, JsonValue)| x.1),
        decreases rest@.len(),
    {
        let (_, v) = rest.remove(0);
        assert(all.skip(k as int).skip(1) =~= all.skip(k + 1));
        out.push(v);
        assert(out@ =~= all.subrange(0, k + 1).map_values(|x: (String, JsonValue)| x.1));
        k = k + 1;
    }
    assert(all.subrange(0, k as int) =~= all);
    out
}

/// The results list of the issues of `l`.
fn results_value(agg: AggType, l: &IssueList, lines: i64) -> (v: JsonValue)
    ensures
        results_of(agg, *l, lines as int, v),
{
    let n = l.len();
    let empty: Vec<&Issue> = Vec::new();
    let mut pairs: Vec<(String, JsonValue)> = Vec::new();
    let mut k: usize = 0;
    while k < n
        invariant
            n == list_len(*l),
            k <= n,
            empty@.len() == 0,
            pairs@.len() == k,
            forall|j: int| 0 <= j < k ==> {
                &&& #[trigger] pairs@[j].0@ == result_key(agg, list_issue(*l, j))
                &&& result_item(list_issue(*l, j), list_candidates(*l, j), lines as int, pairs@[j].1)
            },
        decreases n - k,
    {
        let (i, cands): (&Issue, &Vec<&Issue>) = match l {
            IssueList::Plain(v) => (v[k], &empty),
            IssueList::Baseline(v) => (v[k].0, &v[k].1),
        };
        assert(derefs(empty@) =~= Seq::<Issue>::empty());
        let key = if agg == AggType::Vuln { copy_string(&i.test) } else { copy_string(&i.fname) };
        let item = result_value(i, cands, lines);
        pairs.push((key, item));
        k = k + 1;
    }
    let ghost p = pairs@;
    let sorted = sort_by_key(pairs);
    let v = JsonValue::Array(values_of(sorted));
    assert(v->Array_0@ == sort_keyed(p).map_values(|x: (String, JsonValue)| x.1));
    v
}

/// The report's document, before its keys are sorted.
pub fn report_doc(m: &Manager, sev: Rank, conf: Rank, lines: i64, generated_at: &str) -> (doc: JsonValue)
    ensures
        json_doc(*m, sev, conf, lines as int, generated_at@, doc),
{
    let mut errors: Vec<JsonValue> = Vec::new();
    let mut k: usize = 0;
    while k < m.skipped.len()
        invariant
            k <= m.skipped@.len(),
            errors@.len() == k,
            forall|j: int| 0 <= j < k ==> error_item(m.skipped@[j], #[trigger] errors@[j]),
        decreases m.skipped@.len() - k,
    {
        errors.push(error_value(&m.skipped[k]));
        k = k + 1;
    }
    let l = m.get_issue_list(sev, conf);
    let results = results_value(m.agg_type, &l, lines);
    let mut e: Vec<(String, JsonValue)> = Vec::new();
    e.push((to_owned_string("errors"), JsonValue::Array(errors)));
    e.push((to_owned_string("generated_at"), JsonValue::Str(to_owned_string(generated_at))));
    e.push((to_owned_string("metrics"), m.metrics.to_json()));
    e.push((to_owned_string("results"), results));
    let doc = JsonValue::Object(e);
    assert(issue_list_of(*m, sev, conf, l));
    doc
}

/// The text of the `json` report at time `generated_at`: the document
/// of [`json_doc`] with its keys sorted, as `json.dumps` writes it.
pub fn report(m: &Manager, sev: Rank, conf: Rank, lines: i64, generated_at: &str) -> (r: String)
    ensures
        exists|doc: JsonValue, w: JsonValue| #![trigger json_doc(*m, sev, conf, lines as int, generated_at@, doc), sorted_json(doc, w)]
            {
                &&& json_doc(*m, sev, conf, lines as int, generated_at@, doc)
                &&& sorted_json(doc, w)
                &&& r@ == dump(w, Seq::empty())
            },
{
    let doc = report_doc(m, sev, conf, lines, generated_at);
    let ghost gdoc = doc;
    proof {
        lemma_doc_no_float(*m, sev, conf, lines as int, generated_at@, gdoc);
    }
    match dumps(doc) {
        Some(t) => t,
        None => {
            proof {
                let w = choose|w: JsonValue| #![trigger sorted_json(gdoc, w)]
                    sorted_json(gdoc, w) && has_float(w);
                lemma_sorted_no_float(gdoc, w);
            }
            String::new()
        },
    }
}

proof fn lemma_text_no_float(v: JsonValue, t: Seq<char>)
    requires
        is_text(v, t),
    ensures
        !has_float(v),
{
}

proof fn lemma_cwe_no_float(c: Cwe, v: JsonValue)
    requires
        cwe_json(c, v),
    ensures
        !has_float(v),
{
    assert forall|k: int| 0 <= k < v->Object_0@.len() implies !has_float(#[trigger] v->Object_0@[k].1) by {
        if k == 1 {
            lemma_text_no_float(val_at(v, 1), crate::engine::issue::cwe_link(c.0 as nat));
        }
    }
}

proof fn lemma_range_no_float(r: LineRange, v: JsonValue)
    requires
        range_json(r, v),
    ensures
        !has_float(v),
{
    assert forall|k: int| 0 <= k < v->Array_0@.len() implies !has_float(#[trigger] v->Array_0@[k]) by {
        assert(v->Array_0@[k] == uint(crate::engine::issue::range_lines(r)[k] as u64));
    }
}

proof fn lemma_issue_entries_no_float(i: Issue, wc: bool, ml: int, e: Seq<(String, JsonValue)>)
    requires
        issue_entries(i, wc, ml, e),
    ensures
        forall|k: int| 0 <= k < e.len() ==> !has_float(#[trigger] e[k].1),
{
    assert forall|k: int| 0 <= k < e.len() implies !has_float(#[trigger] e[k].1) by {
        if k == 4 {
            lemma_cwe_no_float(i.cwe, e[4].1);
        } else if k == 8 {
            lemma_range_no_float(i.linerange, e[8].1);
        } else if k == 0 || k == 1 || k == 2 || k == 3 || k == 5 || k == 6 || k == 11 {
        } else {
        }
    }
}

proof fn lemma_issue_json_no_float(i: Issue, lines: int, v: JsonValue)
    requires
        issue_json(i, true, lines, v),
    ensures
        !has_float(v),
{
    lemma_issue_entries_no_float(i, true, lines, v->Object_0@);
}

proof fn lemma_result_no_float(i: Issue, cands: Seq<Issue>, lines: int, v: JsonValue)
    requires
        result_item(i, cands, lines, v),
    ensures
        !has_float(v),
{
    let e = v->Object_0@;
    lemma_issue_entries_no_float(i, true, lines, e.take(12));
    assert forall|k: int| 0 <= k < e.len() implies !has_float(#[trigger] e[k].1) by {
        if k < 12 {
            assert(e.take(12)[k] == e[k]);
        } else if k == 12 {
        } else {
            let a = e[13].1;
            assert forall|j: int| 0 <= j < a->Array_0@.len() implies !has_float(#[trigger] a->Array_0@[j]) by {
                lemma_issue_json_no_float(cands[j], lines, a->Array_0@[j]);
            }
        }
    }
}

proof fn lemma_block_no_float(fm: FileMetrics, v: JsonValue)
    requires
        file_json(fm, v) || totals_json(fm, v),
    ensures
        !has_float(v),
{
    assert(use_type_json(fm, v));
    assert forall|k: int| 0 <= k < v->Object_0@.len() implies !has_float(#[trigger] v->Object_0@[k].1) by {
        if k >= 3 {
            let j = k - 3;
            assert(crate::engine::json::key_at(v, 3 + j) == crate::engine::json::key_at(v, k));
        }
    }
}

proof fn lemma_metrics_no_float(m: crate::engine::metrics::Metrics, v: JsonValue)
    requires
        metrics_json(m, v),
    ensures
        !has_float(v),
{
    let fe = crate::engine::metrics::file_entries(m.files);
    let nf = crate::engine::metrics::named_files(fe);
    assert forall|k: int| 0 <= k < v->Object_0@.len() implies !has_float(#[trigger] v->Object_0@[k].1) by {
        if k == 0 {
            match crate::engine::metrics::totals_named(fe) {
                Some(j) => lemma_block_no_float(fe[j].1, val_at(v, 0)),
                None => lemma_block_no_float(m.totals, val_at(v, 0)),
            }
        } else {
            let j = k - 1;
            assert(crate::engine::json::key_at(v, j + 1) == nf[j].0);
            lemma_block_no_float(nf[j].1, val_at(v, j + 1));
        }
    }
}

proof fn lemma_results_no_float(agg: AggType, l: IssueList, lines: int, v: JsonValue)
    requires
        results_of(agg, l, lines, v),
    ensures
        !has_float(v),
{
    let p = choose|p: Seq<(String, JsonValue)>| #![trigger sort_keyed(p)]
        {
            &&& p.len() == list_len(l)
            &&& v->Array_0@ == sort_keyed(p).map_values(|x: (String, JsonValue)| x.1)
            &&& forall|k: int| 0 <= k < p.len() ==> {
                &&& #[trigger] p[k].0@ == result_key(agg, list_issue(l, k))
                &&& result_item(list_issue(l, k), list_candidates(l, k), lines, p[k].1)
            }
        };
    lemma_sort_members(p);
    assert forall|j: int| 0 <= j < v->Array_0@.len() implies !has_float(#[trigger] v->Array_0@[j]) by {
        let i = choose|i: int| 0 <= i < p.len() && sort_keyed(p)[j] == p[i];
        assert(p[i].0@ == result_key(agg, list_issue(l, i)));
        lemma_result_no_float(list_issue(l, i), list_candidates(l, i), lines, p[i].1);
    }
}

/// The report's document holds no float.
proof fn lemma_doc_no_float(m: Manager, sev: Rank, conf: Rank, lines: int, generated_at: Seq<char>, doc: JsonValue)
    requires
        json_doc(m, sev, conf, lines, generated_at, doc),
    ensures
        !has_float(doc),
{
    assert forall|k: int| 0 <= k < doc->Object_0@.len() implies !has_float(#[trigger] doc->Object_0@[k].1) by {
        if k == 0 {
            let a = val_at(doc, 0);
            assert forall|j: int| 0 <= j < a->Array_0@.len() implies !has_float(#[trigger] a->Array_0@[j]) by {
                assert(error_item(m.skipped@[j], a->Array_0@[j]));
                let x = a->Array_0@[j];
                assert forall|q: int| 0 <= q < x->Object_0@.len() implies !has_float(#[trigger] x->Object_0@[q].1) by {
                    if q == 0 {
                        lemma_text_no_float(val_at(x, 0), m.skipped@[j].0@);
                    } else {
                        lemma_text_no_float(val_at(x, 1), m.skipped@[j].1@);
                    }
                }
            }
        } else if k == 1 {
            lemma_text_no_float(val_at(doc, 1), generated_at);
        } else if k == 2 {
            lemma_metrics_no_float(m.metrics, val_at(doc, 2));
        } else {
            let l = choose|l: IssueList| #![trigger issue_list_of(m, sev, conf, l)]
                issue_list_of(m, sev, conf, l) && results_of(m.agg_type, l, lines, val_at(doc, 3));
            lemma_results_no_float(m.agg_type, l, lines, val_at(doc, 3));
        }
    }
}

} // verus!
