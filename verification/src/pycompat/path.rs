//! `posixpath` helpers: `join`, `split` and `splitext`.

use vstd::prelude::*;
use crate::text::{
    has_prefix, last_index_of, lemma_last_index_of, push_char, push_str, rfind_char, to_owned_string,
};

verus! {

/// `posixpath.join(a, b)`.
pub open spec fn join_spec(a: Seq<char>, b: Seq<char>) -> Seq<char> {
    if b.len() > 0 && b[0] == '/' {
        b
    } else if a.len() == 0 || a.last() == '/' {
        a + b
    } else {
        a + seq!['/'] + b
    }
}

/// `posixpath.join(a, b)`.
pub fn join(a: &str, b: &str) -> (r: String)
    ensures
        r@ == join_spec(a@, b@),
{
    let n = a.unicode_len();
    if b.unicode_len() > 0 && b.get_char(0) == '/' {
        return to_owned_string(b);
    }
    let mut s = to_owned_string(a);
    if n > 0 && a.get_char(n - 1) != '/' {
        push_char(&mut s, '/');
    }
    push_str(&mut s, b);
    s
}

/// Whether `h` is made of slashes only.
pub open spec fn all_slashes(h: Seq<char>) -> bool {
    forall|i: int| 0 <= i < h.len() ==> h[i] == '/'
}

/// `h.rstrip("/")`.
pub open spec fn rstrip_slashes(h: Seq<char>) -> Seq<char>
    decreases h.len(),
{
    if h.len() > 0 && h.last() == '/' {
        rstrip_slashes(h.drop_last())
    } else {
        h
    }
}

/// `posixpath.split(p)`: the head (trailing slashes removed unless it is
/// all slashes) and the tail after the last slash.
pub open spec fn split_spec(p: Seq<char>) -> (Seq<char>, Seq<char>) {
    let i = match last_index_of(p, '/') {
        Some(k) => k + 1,
        None => 0,
    };
    let head = p.subrange(0, i);
    let tail = p.skip(i);
    if head.len() > 0 && !all_slashes(head) {
        (rstrip_slashes(head), tail)
    } else {
        (head, tail)
    }
}

fn rstrip_slash_str(h: &str) -> (r: String)
    ensures
        r@ == rstrip_slashes(h@),
{
    let mut k: usize = h.unicode_len();
    assert(h@.subrange(0, k as int) =~= h@);
    while k > 0 && h.get_char(k - 1) == '/'
        invariant
            k <= h@.len(),
            rstrip_slashes(h@) == rstrip_slashes(h@.subrange(0, k as int)),
        decreases k,
    {
        assert(h@.subrange(0, k as int).drop_last() =~= h@.subrange(0, k - 1));
        k = k - 1;
    }
    to_owned_string(h.substring_char(0, k))
}

fn is_all_slashes(h: &str) -> (r: bool)
    ensures
        r == all_slashes(h@),
{
    let n = h.unicode_len();
    let mut i: usize = 0;
    while i < n
        invariant
            n == h@.len(),
            i <= n,
            forall|j: int| 0 <= j < i ==> h@[j] == '/',
        decreases n - i,
    {
        if h.get_char(i) != '/' {
            return false;
        }
        i = i + 1;
    }
    true
}

/// `posixpath.split(p)`.
pub fn split(p: &str) -> (r: (String, String))
    ensures
        r.0@ == split_spec(p@).0,
        r.1@ == split_spec(p@).1,
{
    let n = p.unicode_len();
    let i: usize = match rfind_char(p, '/') {
        Some(k) => {
            proof {
                lemma_last_index_of(p@, '/');
            }
            k + 1
        },
        None => 0,
    };
    let head = p.substring_char(0, i);
    let tail = p.substring_char(i, n);
    assert(tail@ =~= p@.skip(i as int));
    if head.unicode_len() > 0 && !is_all_slashes(head) {
        (rstrip_slash_str(head), to_owned_string(tail))
    } else {
        (to_owned_string(head), to_owned_string(tail))
    }
}

/// Where the extension of `p` starts, if it has one: the last dot after
/// the last slash, provided the name before it is not all dots.
pub open spec fn ext_start(p: Seq<char>) -> Option<int> {
    let sep = match last_index_of(p, '/') {
        Some(k) => k,
        None => -1,
    };
    match last_index_of(p, '.') {
        Some(d) => if d > sep && exists|k: int| sep + 1 <= k < d && p[k] != '.' {
            Some(d)
        } else {
            None
        },
        None => None,
    }
}

/// `posixpath.splitext(p)`.
pub open spec fn splitext_spec(p: Seq<char>) -> (Seq<char>, Seq<char>) {
    match ext_start(p) {
        Some(d) => (p.subrange(0, d), p.skip(d)),
        None => (p, Seq::empty()),
    }
}

/// `posixpath.splitext(p)`.
pub fn splitext(p: &str) -> (r: (String, String))
    ensures
        r.0@ == splitext_spec(p@).0,
        r.1@ == splitext_spec(p@).1,
{
    let n = p.unicode_len();
    proof {
        lemma_last_index_of(p@, '/');
        lemma_last_index_of(p@, '.');
    }
    let sep1: usize = match rfind_char(p, '/') {
        Some(k) => k + 1,
        None => 0,
    };
    match rfind_char(p, '.') {
        Some(d) => {
            if d >= sep1 {
                let mut k: usize = sep1;
                while k < d
                    invariant
                        sep1 <= k <= d,
                        d < n,
                        n == p@.len(),
                        last_index_of(p@, '.') == Some(d as int),
                        sep1 == (match last_index_of(p@, '/') {
                            Some(j) => j + 1,
                            None => 0,
                        }),
                        forall|j: int| sep1 <= j < k ==> p@[j] == '.',
                    decreases d - k,
                {
                    if p.get_char(k) != '.' {
                        assert(ext_start(p@) == Some(d as int));
                        let a = p.substring_char(0, d);
                        let b = p.substring_char(d, n);
                        assert(b@ =~= p@.skip(d as int));
                        return (to_owned_string(a), to_owned_string(b));
                    }
                    k = k + 1;
                }
            }
            (to_owned_string(p), String::new())
        },
        None => (to_owned_string(p), String::new()),
    }
}

} // verus!
