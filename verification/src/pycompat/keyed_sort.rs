//! Python's `sorted(items, key=...)` on items keyed by text: a stable sort
//! in code point order.

use vstd::prelude::*;
use crate::text::{lemma_seq_less_order, lemma_seq_less_trans, seq_less, str_less};

verus! {

/// `x` put into `s` after every item whose key does not sort after its
/// own, and before the rest at the end of `s` that sort after it.
pub open spec fn insert_keyed<T>(s: Seq<(String, T)>, x: (String, T)) -> Seq<(String, T)>
    decreases s.len(),
{
    if s.len() == 0 {
        seq![x]
    } else if seq_less(x.0@, s.last().0@) {
        insert_keyed(s.drop_last(), x).push(s.last())
    } else {
        s.push(x)
    }
}

/// The items of `s` sorted by key; items with equal keys keep their order.
pub open spec fn sort_keyed<T>(s: Seq<(String, T)>) -> Seq<(String, T)>
    decreases s.len(),
{
    if s.len() == 0 {
        Seq::empty()
    } else {
        insert_keyed(sort_keyed(s.drop_last()), s.last())
    }
}

/// Inserting at the first position from which every key sorts after `x`'s
/// is [`insert_keyed`].
proof fn lemma_insert_at<T>(s: Seq<(String, T)>, x: (String, T), j: int)
    requires
        0 <= j <= s.len(),
        forall|k: int| j <= k < s.len() ==> seq_less(x.0@, #[trigger] s[k].0@),
        j == 0 || !seq_less(x.0@, s[j - 1].0@),
    ensures
        insert_keyed(s, x) == s.take(j) + seq![x] + s.skip(j),
    decreases s.len(),
{
    if s.len() == 0 {
        assert(s.take(j) + seq![x] + s.skip(j) =~= seq![x]);
    } else if j == s.len() {
        assert(!seq_less(x.0@, s.last().0@));
        assert(s.take(j) + seq![x] + s.skip(j) =~= s.push(x));
    } else {
        assert(seq_less(x.0@, s[s.len() - 1].0@));
        let d = s.drop_last();
        assert forall|k: int| j <= k < d.len() implies seq_less(x.0@, #[trigger] d[k].0@) by {
            assert(d[k] == s[k]);
        }
        if j > 0 {
            assert(d[j - 1] == s[j - 1]);
        }
        lemma_insert_at(d, x, j);
        assert((d.take(j) + seq![x] + d.skip(j)).push(s.last()) =~= s.take(j) + seq![x] + s.skip(j));
    }
}

/// Inserts `x` into `v` as [`insert_keyed`] does.
fn insert_item<T>(v: &mut Vec<(String, T)>, x: (String, T))
    ensures
        final(v)@ == insert_keyed(old(v)@, x),
{
    let mut j: usize = v.len();
    while j > 0 && str_less(x.0.as_str(), v[j - 1].0.as_str())
        invariant
            j <= v@.len(),
            v@ == old(v)@,
            forall|k: int| j <= k < v@.len() ==> seq_less(x.0@, #[trigger] v@[k].0@),
        decreases j,
    {
        j = j - 1;
    }
    proof {
        lemma_insert_at(v@, x, j as int);
    }
    let ghost s = v@;
    v.insert(j, x);
    assert(v@ =~= s.take(j as int) + seq![x] + s.skip(j as int));
}

/// `sorted(items, key=...)` on items keyed by text.
pub fn sort_by_key<T>(items: Vec<(String, T)>) -> (r: Vec<(String, T)>)
    ensures
        r@ == sort_keyed(items@),
{
    let ghost all = items@;
    let mut rest = items;
    let mut out: Vec<(String, T)> = Vec::new();
    let mut k: usize = 0;
    let n = rest.len();
    assert(all.subrange(0, 0) =~= Seq::<(String, T)>::empty());
    while rest.len() > 0
        invariant
            n == all.len(),
            k <= all.len(),
            rest@ == all.skip(k as int),
            out@ == sort_keyed(all.subrange(0, k as int)),
        decreases rest@.len(),
    {
        let x = rest.remove(0);
        assert(x == all[k as int]);
        assert(all.skip(k as int).skip(1) =~= all.skip(k + 1));
        insert_item(&mut out, x);
        let ghost cur = all.subrange(0, k + 1);
        assert(cur.drop_last() =~= all.subrange(0, k as int));
        k = k + 1;
    }
    assert(all.subrange(0, k as int) =~= all);
    out
}

/// Each item of `insert_keyed(s, x)` is `x` or an item of `s`.
pub proof fn lemma_insert_members<T>(s: Seq<(String, T)>, x: (String, T))
    ensures
        insert_keyed(s, x).len() == s.len() + 1,
        forall|j: int| 0 <= j < insert_keyed(s, x).len() ==> #[trigger] insert_keyed(s, x)[j] == x || exists|i: int|
            0 <= i < s.len() && insert_keyed(s, x)[j] == s[i],
    decreases s.len(),
{
    if s.len() > 0 && seq_less(x.0@, s.last().0@) {
        let d = s.drop_last();
        lemma_insert_members(d, x);
        let r = insert_keyed(s, x);
        assert forall|j: int| 0 <= j < r.len() implies #[trigger] r[j] == x || exists|i: int| 0 <= i < s.len() && r[j] == s[i] by {
            if j == r.len() - 1 {
                assert(r[j] == s[s.len() - 1]);
            } else {
                assert(r[j] == insert_keyed(d, x)[j]);
                if r[j] != x {
                    let i = choose|i: int| 0 <= i < d.len() && insert_keyed(d, x)[j] == d[i];
                    assert(d[i] == s[i]);
                }
            }
        }
    } else if s.len() > 0 {
        let r = insert_keyed(s, x);
        assert forall|j: int| 0 <= j < r.len() implies #[trigger] r[j] == x || exists|i: int| 0 <= i < s.len() && r[j] == s[i] by {
            if j < s.len() {
                assert(r[j] == s[j]);
            }
        }
    }
}

/// Each item of `sort_keyed(s)` is an item of `s`, and there are as many.
pub proof fn lemma_sort_members<T>(s: Seq<(String, T)>)
    ensures
        sort_keyed(s).len() == s.len(),
        forall|j: int| 0 <= j < sort_keyed(s).len() ==> exists|i: int| 0 <= i < s.len() && #[trigger] sort_keyed(s)[j] == s[i],
    decreases s.len(),
{
    if s.len() > 0 {
        let d = s.drop_last();
        lemma_sort_members(d);
        lemma_insert_members(sort_keyed(d), s.last());
        let r = sort_keyed(s);
        assert forall|j: int| 0 <= j < r.len() implies exists|i: int| 0 <= i < s.len() && #[trigger] r[j] == s[i] by {
            if r[j] == s.last() {
                assert(r[j] == s[s.len() - 1]);
            } else {
                let k = choose|k: int| 0 <= k < sort_keyed(d).len() && r[j] == sort_keyed(d)[k];
                let i = choose|i: int| 0 <= i < d.len() && sort_keyed(d)[k] == d[i];
                assert(d[i] == s[i]);
            }
        }
    }
}

/// Whether no item of `s` has a key that sorts before that of an item
/// before it.
pub open spec fn keys_sorted<T>(s: Seq<(String, T)>) -> bool {
    forall|i: int, j: int| 0 <= i < j < s.len() ==> !seq_less(#[trigger] s[j].0@, #[trigger] s[i].0@)
}

/// Inserting into a sorted sequence keeps it sorted.
proof fn lemma_insert_sorted<T>(s: Seq<(String, T)>, x: (String, T))
    requires
        keys_sorted(s),
    ensures
        keys_sorted(insert_keyed(s, x)),
    decreases s.len(),
{
    if s.len() == 0 {
        return;
    }
    let last = s.last();
    let r = insert_keyed(s, x);
    if seq_less(x.0@, last.0@) {
        let d = s.drop_last();
        assert(keys_sorted(d)) by {
            assert forall|i: int, j: int| 0 <= i < j < d.len() implies !seq_less(#[trigger] d[j].0@, #[trigger] d[i].0@) by {
                assert(d[i] == s[i] && d[j] == s[j]);
            }
        }
        lemma_insert_sorted(d, x);
        lemma_insert_members(d, x);
        let q = insert_keyed(d, x);
        assert forall|i: int, j: int| 0 <= i < j < r.len() implies !seq_less(#[trigger] r[j].0@, #[trigger] r[i].0@) by {
            if j == r.len() - 1 {
                assert(r[j] == last);
                assert(r[i] == q[i]);
                if q[i] == x {
                    lemma_seq_less_order(x.0@, last.0@);
                } else {
                    let k = choose|k: int| 0 <= k < d.len() && q[i] == d[k];
                    assert(d[k] == s[k]);
                    assert(!seq_less(s[s.len() - 1].0@, s[k].0@));
                }
            } else {
                assert(r[i] == q[i] && r[j] == q[j]);
            }
        }
    } else {
        assert forall|i: int, j: int| 0 <= i < j < r.len() implies !seq_less(#[trigger] r[j].0@, #[trigger] r[i].0@) by {
            if j == r.len() - 1 {
                assert(r[j] == x);
                assert(r[i] == s[i]);
                if seq_less(x.0@, s[i].0@) {
                    if i < s.len() - 1 {
                        assert(!seq_less(s[s.len() - 1].0@, s[i].0@));
                        lemma_seq_less_order(s[i].0@, last.0@);
                        if s[i].0@ != last.0@ {
                            lemma_seq_less_trans(x.0@, s[i].0@, last.0@);
                        }
                    }
                }
            } else {
                assert(r[i] == s[i] && r[j] == s[j]);
            }
        }
    }
}

/// `sorted(items, key=...)` orders the items by key.
pub proof fn lemma_sort_keyed_sorted<T>(s: Seq<(String, T)>)
    ensures
        keys_sorted(sort_keyed(s)),
    decreases s.len(),
{
    if s.len() > 0 {
        lemma_sort_keyed_sorted(s.drop_last());
        lemma_insert_sorted(sort_keyed(s.drop_last()), s.last());
    }
}

} // verus!
