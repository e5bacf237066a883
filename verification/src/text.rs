//! String building blocks shared by the whole crate: character pushes,
//! string equality, decimal rendering and the sequence-level helpers the
//! contracts are written with.

use vstd::prelude::*;

verus! {

/// The character of a decimal digit `d` (`0 <= d < 10`).
pub open spec fn digit_char(d: nat) -> char {
    (d + 48) as char
}

/// Decimal rendering of a natural number (Python `str(int)`), no sign, no
/// leading zeros.
pub open spec fn decimal(n: nat) -> Seq<char>
    decreases n,
{
    if n < 10 {
        seq![digit_char(n)]
    } else {
        decimal(n / 10).push(digit_char(n % 10))
    }
}

/// `sep.join(parts)`.
pub open spec fn seq_join(parts: Seq<Seq<char>>, sep: Seq<char>) -> Seq<char>
    decreases parts.len(),
{
    if parts.len() == 0 {
        Seq::empty()
    } else if parts.len() == 1 {
        parts[0]
    } else {
        seq_join(parts.drop_last(), sep) + sep + parts.last()
    }
}

/// Whether `needle` occurs in `hay` at position `i`.
pub open spec fn occurs_at(hay: Seq<char>, needle: Seq<char>, i: int) -> bool {
    0 <= i && i + needle.len() <= hay.len() && hay.subrange(i, i + needle.len()) == needle
}

/// Whether `needle` occurs anywhere in `hay` (Python `needle in hay`).
pub open spec fn contains_seq(hay: Seq<char>, needle: Seq<char>) -> bool {
    exists|i: int| occurs_at(hay, needle, i)
}

/// `hay.replace(needle, with)` for a non-empty `needle`: every occurrence,
/// scanning left to right without overlap.
pub open spec fn replace_all(hay: Seq<char>, needle: Seq<char>, with: Seq<char>) -> Seq<char>
    recommends
        needle.len() > 0,
    decreases hay.len(),
{
    if needle.len() == 0 || hay.len() == 0 {
        hay
    } else if occurs_at(hay, needle, 0) {
        with + replace_all(hay.skip(needle.len() as int), needle, with)
    } else {
        seq![hay[0]] + replace_all(hay.skip(1), needle, with)
    }
}

/// ASCII lower-casing of one character (non-letters are unchanged).
pub open spec fn lower_char(c: char) -> char {
    if 'A' <= c && c <= 'Z' {
        ((c as int) + 32) as char
    } else {
        c
    }
}

/// ASCII lower-casing of a sequence.
pub open spec fn lower_seq(s: Seq<char>) -> Seq<char> {
    Seq::new(s.len(), |i: int| lower_char(s[i]))
}

/// Whether `s` starts with `p`.
pub open spec fn has_prefix(s: Seq<char>, p: Seq<char>) -> bool {
    p.len() <= s.len() && s.subrange(0, p.len() as int) == p
}

/// Appends one character (`String::push`).
#[verifier::external_body]
pub(crate) fn push_char(s: &mut String, c: char)
    ensures
        final(s)@ == old(s)@.push(c),
{
    s.push(c);
}

/// String equality (`<str as PartialEq>::eq`).
#[verifier::external_body]
pub(crate) fn str_eq(a: &str, b: &str) -> (r: bool)
    ensures
        r == (a@ == b@),
{
    a == b
}

/// Appends `t` to `s`.
pub fn push_str(s: &mut String, t: &str)
    ensures
        final(s)@ == old(s)@ + t@,
{
    s.append(t);
}

/// A fresh `String` holding `t`.
pub fn to_owned_string(t: &str) -> (r: String)
    ensures
        r@ == t@,
{
    String::from_str(t)
}

/// Copies a `String`.
pub fn copy_string(t: &String) -> (r: String)
    ensures
        r@ == t@,
{
    t.clone()
}

/// The character of digit `d`.
pub fn digit(d: u64) -> (c: char)
    requires
        d < 10,
    ensures
        c == digit_char(d as nat),
{
    if d == 0 {
        '0'
    } else if d == 1 {
        '1'
    } else if d == 2 {
        '2'
    } else if d == 3 {
        '3'
    } else if d == 4 {
        '4'
    } else if d == 5 {
        '5'
    } else if d == 6 {
        '6'
    } else if d == 7 {
        '7'
    } else if d == 8 {
        '8'
    } else {
        '9'
    }
}

/// Appends the decimal rendering of `n`.
pub fn push_decimal(s: &mut String, n: u64)
    ensures
        final(s)@ == old(s)@ + decimal(n as nat),
    decreases n,
{
    let ghost start = s@;
    if n >= 10 {
        push_decimal(s, n / 10);
    }
    push_char(s, digit(n % 10));
    assert(s@ =~= start + decimal(n as nat));
}

/// Appends the decimal rendering of a 128-bit `n`.
pub fn push_decimal_u128(s: &mut String, n: u128)
    ensures
        final(s)@ == old(s)@ + decimal(n as nat),
    decreases n,
{
    let ghost start = s@;
    if n >= 10 {
        push_decimal_u128(s, n / 10);
    }
    push_char(s, digit((n % 10) as u64));
    assert(s@ =~= start + decimal(n as nat));
}

/// `str(n)` for an unsigned integer.
pub fn decimal_string(n: u64) -> (r: String)
    ensures
        r@ == decimal(n as nat),
{
    let mut s = String::new();
    push_decimal(&mut s, n);
    assert(s@ =~= decimal(n as nat));
    s
}

/// Whether `hay` contains `c`.
pub fn str_has_char(hay: &str, c: char) -> (r: bool)
    ensures
        r == hay@.contains(c),
{
    let n = hay.unicode_len();
    let mut i: usize = 0;
    while i < n
        invariant
            n == hay@.len(),
            i <= n,
            forall|j: int| 0 <= j < i ==> hay@[j] != c,
        decreases n - i,
    {
        if hay.get_char(i) == c {
            return true;
        }
        i = i + 1;
    }
    false
}

/// Whether `needle` occurs in `hay` at character position `i`.
pub fn matches_at(hay: &str, needle: &str, i: usize) -> (r: bool)
    ensures
        r == occurs_at(hay@, needle@, i as int),
{
    let n = hay.unicode_len();
    let m = needle.unicode_len();
    if i > n || m > n - i {
        return false;
    }
    let mut k: usize = 0;
    while k < m
        invariant
            n == hay@.len(),
            m == needle@.len(),
            i + m <= n,
            k <= m,
            forall|j: int| 0 <= j < k ==> hay@[i + j] == needle@[j],
        decreases m - k,
    {
        if hay.get_char(i + k) != needle.get_char(k) {
            assert(hay@.subrange(i as int, i + m)[k as int] != needle@[k as int]);
            return false;
        }
        k = k + 1;
    }
    assert(hay@.subrange(i as int, i + m) =~= needle@);
    true
}

/// Python `needle in hay`.
pub fn str_contains(hay: &str, needle: &str) -> (r: bool)
    ensures
        r == contains_seq(hay@, needle@),
{
    let n = hay.unicode_len();
    let mut i: usize = 0;
    loop
        invariant
            n == hay@.len(),
            i <= n,
            forall|j: int| 0 <= j < i ==> !occurs_at(hay@, needle@, j),
        decreases n - i,
    {
        if matches_at(hay, needle, i) {
            return true;
        }
        if i == n {
            assert forall|j: int| !occurs_at(hay@, needle@, j) by {
                if 0 <= j && j <= n {
                }
            }
            return false;
        }
        i = i + 1;
    }
}

/// Whether `s` starts with `p`.
pub fn str_starts_with(s: &str, p: &str) -> (r: bool)
    ensures
        r == has_prefix(s@, p@),
{
    matches_at(s, p, 0)
}

fn lower_ascii_letter(c: char) -> (r: char)
    requires
        'A' <= c && c <= 'Z',
    ensures
        r == lower_char(c),
{
    let u = c as u32 + 32;
    let b = u as u8;
    b as char
}

/// ASCII lower-casing.
pub fn to_lower(s: &str) -> (r: String)
    ensures
        r@ == lower_seq(s@),
{
    let n = s.unicode_len();
    let mut out = String::new();
    let mut i: usize = 0;
    while i < n
        invariant
            n == s@.len(),
            i <= n,
            out@ =~= lower_seq(s@).subrange(0, i as int),
        decreases n - i,
    {
        let c = s.get_char(i);
        let l = if 'A' <= c && c <= 'Z' {
            lower_ascii_letter(c)
        } else {
            c
        };
        push_char(&mut out, l);
        i = i + 1;
    }
    assert(out@ =~= lower_seq(s@));
    out
}

/// `hay.replace(needle, with)` (`needle` non-empty).
pub fn replace_str(hay: &str, needle: &str, with: &str) -> (r: String)
    requires
        needle@.len() > 0,
    ensures
        r@ == replace_all(hay@, needle@, with@),
{
    let n = hay.unicode_len();
    let m = needle.unicode_len();
    let mut out = String::new();
    let mut i: usize = 0;
    assert(hay@.skip(0) =~= hay@);
    assert(out@ + hay@ =~= hay@);
    while i < n
        invariant
            n == hay@.len(),
            m == needle@.len(),
            m > 0,
            i <= n,
            replace_all(hay@, needle@, with@) == out@ + replace_all(hay@.skip(i as int), needle@, with@),
        decreases n - i,
    {
        let ghost rest = hay@.skip(i as int);
        let ghost old_out = out@;
        if matches_at(hay, needle, i) {
            proof {
                assert(rest.subrange(0, m as int) =~= hay@.subrange(i as int, i + m));
                assert(occurs_at(rest, needle@, 0));
                assert(rest.skip(m as int) =~= hay@.skip(i + m));
            }
            push_str(&mut out, with);
            i = i + m;
        } else {
            proof {
                if occurs_at(rest, needle@, 0) {
                    assert(rest.subrange(0, m as int) =~= hay@.subrange(i as int, i + m));
                }
                assert(rest.skip(1) =~= hay@.skip(i + 1));
                assert(rest[0] == hay@[i as int]);
            }
            push_char(&mut out, hay.get_char(i));
            i = i + 1;
        }
        assert(replace_all(hay@, needle@, with@) =~= out@ + replace_all(hay@.skip(i as int), needle@, with@));
    }
    assert(hay@.skip(n as int).len() == 0);
    assert(out@ =~= out@ + replace_all(hay@.skip(n as int), needle@, with@));
    out
}

/// Position of the first occurrence of `c` in `s`.
pub fn find_char(s: &str, c: char) -> (r: Option<usize>)
    ensures
        match r {
            Some(k) => k < s@.len() && s@[k as int] == c && forall|j: int| 0 <= j < k ==> s@[j] != c,
            None => !s@.contains(c),
        },
{
    let n = s.unicode_len();
    let mut i: usize = 0;
    while i < n
        invariant
            n == s@.len(),
            i <= n,
            forall|j: int| 0 <= j < i ==> s@[j] != c,
        decreases n - i,
    {
        if s.get_char(i) == c {
            return Some(i);
        }
        i = i + 1;
    }
    None
}

/// The views of a sequence of strings.
pub open spec fn views_of(s: Seq<String>) -> Seq<Seq<char>> {
    s.map_values(|x: String| x@)
}

/// Whether `v` holds a string equal to `s`.
pub fn contains_string(v: &Vec<String>, s: &str) -> (r: bool)
    ensures
        r == views_of(v@).contains(s@),
{
    let mut i: usize = 0;
    while i < v.len()
        invariant
            i <= v@.len(),
            forall|j: int| 0 <= j < i ==> v@[j]@ != s@,
        decreases v@.len() - i,
    {
        if str_eq(v[i].as_str(), s) {
            assert(views_of(v@)[i as int] == s@);
            return true;
        }
        i = i + 1;
    }
    assert forall|j: int| 0 <= j < views_of(v@).len() implies views_of(v@)[j] != s@ by {
        assert(views_of(v@)[j] == v@[j]@);
    }
    false
}

/// A copy of a vector of strings.
pub fn copy_strings(v: &Vec<String>) -> (r: Vec<String>)
    ensures
        views_of(r@) == views_of(v@),
{
    let mut out: Vec<String> = Vec::new();
    let mut i: usize = 0;
    while i < v.len()
        invariant
            i <= v@.len(),
            views_of(out@) =~= views_of(v@).subrange(0, i as int),
        decreases v@.len() - i,
    {
        let x = copy_string(&v[i]);
        let ghost before = out@;
        out.push(x);
        assert(views_of(out@) =~= views_of(before).push(x@));
        i = i + 1;
    }
    assert(views_of(out@) =~= views_of(v@));
    out
}

/// Position of the last occurrence of `c` in `s`, if any.
pub open spec fn last_index_of(s: Seq<char>, c: char) -> Option<int>
    decreases s.len(),
{
    if s.len() == 0 {
        None
    } else if s.last() == c {
        Some(s.len() - 1)
    } else {
        last_index_of(s.drop_last(), c)
    }
}

/// A found last position is in range, holds `c`, and nothing after it does.
pub proof fn lemma_last_index_of(s: Seq<char>, c: char)
    ensures
        match last_index_of(s, c) {
            Some(k) => 0 <= k < s.len() && s[k] == c && forall|j: int| k < j < s.len() ==> s[j] != c,
            None => !s.contains(c),
        },
    decreases s.len(),
{
    if s.len() > 0 && s.last() != c {
        let d = s.drop_last();
        lemma_last_index_of(d, c);
        match last_index_of(d, c) {
            Some(k) => {
                assert forall|j: int| k < j < s.len() implies s[j] != c by {
                    if j < s.len() - 1 {
                        assert(d[j] == s[j]);
                    }
                }
            },
            None => {
                assert forall|j: int| 0 <= j < s.len() implies s[j] != c by {
                    if j < s.len() - 1 {
                        assert(d[j] == s[j]);
                    }
                }
            },
        }
    }
}

/// Position of the last occurrence of `c` in `s`.
pub fn rfind_char(s: &str, c: char) -> (r: Option<usize>)
    ensures
        match r {
            Some(k) => last_index_of(s@, c) == Some(k as int),
            None => last_index_of(s@, c) is None,
        },
{
    let n = s.unicode_len();
    let mut i: usize = n;
    assert(s@.subrange(0, n as int) =~= s@);
    while i > 0
        invariant
            n == s@.len(),
            i <= n,
            last_index_of(s@, c) == last_index_of(s@.subrange(0, i as int), c),
        decreases i,
    {
        let ghost t = s@.subrange(0, i as int);
        assert(t.drop_last() =~= s@.subrange(0, i - 1));
        if s.get_char(i - 1) == c {
            return Some(i - 1);
        }
        i = i - 1;
    }
    assert(s@.subrange(0, 0).len() == 0);
    None
}

/// Lexicographic order on character sequences (code point order, which
/// is also the byte order of their UTF-8 encodings).
pub open spec fn seq_less(a: Seq<char>, b: Seq<char>) -> bool
    decreases a.len(),
{
    if a.len() == 0 {
        b.len() > 0
    } else if b.len() == 0 {
        false
    } else if a[0] != b[0] {
        a[0] < b[0]
    } else {
        seq_less(a.skip(1), b.skip(1))
    }
}

/// `seq_less` is a strict total order.
pub proof fn lemma_seq_less_order(a: Seq<char>, b: Seq<char>)
    ensures
        !seq_less(a, a),
        seq_less(a, b) ==> !seq_less(b, a),
        a != b ==> seq_less(a, b) || seq_less(b, a),
    decreases a.len(),
{
    if a.len() > 0 && b.len() > 0 {
        lemma_seq_less_order(a.skip(1), b.skip(1));
        lemma_seq_less_order(a.skip(1), a.skip(1));
        if a[0] == b[0] && a != b {
            assert(a.skip(1) != b.skip(1)) by {
                if a.skip(1) == b.skip(1) {
                    assert(a =~= seq![a[0]] + a.skip(1));
                    assert(b =~= seq![b[0]] + b.skip(1));
                }
            }
        }
    } else if a.len() > 0 {
        lemma_seq_less_order(a.skip(1), a.skip(1));
    } else if b.len() == 0 {
        assert(a =~= b);
    }
}

/// `seq_less` is transitive.
pub proof fn lemma_seq_less_trans(a: Seq<char>, b: Seq<char>, c: Seq<char>)
    requires
        seq_less(a, b),
        seq_less(b, c),
    ensures
        seq_less(a, c),
    decreases a.len(),
{
    if a.len() > 0 && b.len() > 0 && c.len() > 0 && a[0] == b[0] && b[0] == c[0] {
        lemma_seq_less_trans(a.skip(1), b.skip(1), c.skip(1));
    }
}

/// Whether `a` sorts strictly before `b`.
pub fn str_less(a: &str, b: &str) -> (r: bool)
    ensures
        r == seq_less(a@, b@),
{
    let n = a.unicode_len();
    let m = b.unicode_len();
    let mut i: usize = 0;
    assert(a@.skip(0) =~= a@);
    assert(b@.skip(0) =~= b@);
    while i < n && i < m
        invariant
            n == a@.len(),
            m == b@.len(),
            i <= n,
            i <= m,
            seq_less(a@, b@) == seq_less(a@.skip(i as int), b@.skip(i as int)),
        decreases n - i,
    {
        let x = a.get_char(i);
        let y = b.get_char(i);
        if x != y {
            return x < y;
        }
        assert(a@.skip(i as int).skip(1) =~= a@.skip(i + 1));
        assert(b@.skip(i as int).skip(1) =~= b@.skip(i + 1));
        i = i + 1;
    }
    i == n && i < m
}

/// Every pair of `s` is in strictly increasing order.
pub open spec fn strictly_sorted(s: Seq<Seq<char>>) -> bool {
    forall|i: int, j: int| 0 <= i < j < s.len() ==> seq_less(#[trigger] s[i], #[trigger] s[j])
}

/// Membership in a sequence after a push.
pub proof fn lemma_push_contains<A>(s: Seq<A>, e: A, y: A)
    ensures
        s.push(e).contains(y) <==> (s.contains(y) || y == e),
{
    if s.push(e).contains(y) {
        let k = choose|k: int| 0 <= k < s.push(e).len() && s.push(e)[k] == y;
        if k < s.len() {
            assert(s[k] == y);
        }
    }
    if s.contains(y) {
        let k = choose|k: int| 0 <= k < s.len() && s[k] == y;
        assert(s.push(e)[k] == y);
    }
    if y == e {
        assert(s.push(e)[s.len() as int] == y);
    }
}

/// `v` sorted, without duplicates (`sorted(set(v))`).
pub fn sort_dedup(v: Vec<String>) -> (r: Vec<String>)
    ensures
        strictly_sorted(views_of(r@)),
        forall|x: Seq<char>| views_of(r@).contains(x) <==> views_of(v@).contains(x),
{
    let mut out: Vec<String> = Vec::new();
    let mut i: usize = 0;
    while i < v.len()
        invariant
            i <= v@.len(),
            strictly_sorted(views_of(out@)),
            forall|x: Seq<char>| views_of(out@).contains(x) <==> views_of(v@.subrange(0, i as int)).contains(x),
        decreases v@.len() - i,
    {
        let x = copy_string(&v[i]);
        let ghost old_out = views_of(out@);
        let mut pos: usize = 0;
        while pos < out.len() && str_less(out[pos].as_str(), x.as_str())
            invariant
                pos <= out@.len(),
                old_out == views_of(out@),
                forall|k: int| 0 <= k < pos ==> seq_less(#[trigger] old_out[k], x@),
            decreases out@.len() - pos,
        {
            assert(old_out[pos as int] == out@[pos as int]@);
            pos = pos + 1;
        }
        let ghost prefix = v@.subrange(0, i as int);
        assert(v@.subrange(0, i + 1) =~= prefix.push(v@[i as int]));
        assert(views_of(prefix.push(v@[i as int])) =~= views_of(prefix).push(x@));
        assert forall|y: Seq<char>| views_of(v@.subrange(0, i + 1)).contains(y) <==> (views_of(prefix).contains(y) || y == x@) by {
            lemma_push_contains(views_of(prefix), x@, y);
        }
        if pos < out.len() && str_eq(out[pos].as_str(), x.as_str()) {
            assert(old_out[pos as int] == x@);
        } else {
            proof {
                assert forall|k: int| pos <= k < old_out.len() implies seq_less(x@, #[trigger] old_out[k]) by {
                    assert(old_out[pos as int] == out@[pos as int]@);
                    lemma_seq_less_order(old_out[pos as int], x@);
                    if k > pos {
                        lemma_seq_less_trans(x@, old_out[pos as int], old_out[k]);
                    }
                }
            }
            out.insert(pos, x);
            proof {
                let nv = views_of(out@);
                assert(nv =~= old_out.insert(pos as int, x@));
                assert forall|a: int, b: int| 0 <= a < b < nv.len() implies seq_less(#[trigger] nv[a], #[trigger] nv[b]) by {
                    if b < pos {
                    } else if b == pos {
                    } else if a < pos {
                        lemma_seq_less_trans(nv[a], x@, nv[b]);
                    } else if a == pos {
                    } else {
                        assert(nv[a] == old_out[a - 1] && nv[b] == old_out[b - 1]);
                    }
                }
                assert forall|y: Seq<char>| nv.contains(y) <==> (old_out.contains(y) || y == x@) by {
                    if nv.contains(y) {
                        let k = choose|k: int| 0 <= k < nv.len() && nv[k] == y;
                        if k < pos {
                            assert(old_out[k] == y);
                        } else if k > pos {
                            assert(old_out[k - 1] == y);
                        }
                    }
                    if old_out.contains(y) {
                        let k = choose|k: int| 0 <= k < old_out.len() && old_out[k] == y;
                        if k < pos {
                            assert(nv[k] == y);
                        } else {
                            assert(nv[k + 1] == y);
                        }
                    }
                    if y == x@ {
                        assert(nv[pos as int] == y);
                    }
                }
            }
        }
        i = i + 1;
    }
    assert(v@.subrange(0, v@.len() as int) =~= v@);
    out
}

/// Membership in a concatenation.
pub proof fn lemma_concat_contains<A>(a: Seq<A>, b: Seq<A>, y: A)
    ensures
        (a + b).contains(y) <==> (a.contains(y) || b.contains(y)),
{
    if (a + b).contains(y) {
        let k = choose|k: int| 0 <= k < (a + b).len() && (a + b)[k] == y;
        if k < a.len() {
            assert(a[k] == y);
        } else {
            assert(b[k - a.len()] == y);
        }
    }
    if a.contains(y) {
        let k = choose|k: int| 0 <= k < a.len() && a[k] == y;
        assert((a + b)[k] == y);
    }
    if b.contains(y) {
        let k = choose|k: int| 0 <= k < b.len() && b[k] == y;
        assert((a + b)[a.len() + k] == y);
    }
}

/// Whether `c` is an ASCII decimal digit.
pub open spec fn is_digit(c: char) -> bool {
    '0' <= c && c <= '9'
}

/// Whether `s` is a non-empty run of ASCII decimal digits.
pub open spec fn all_digits(s: Seq<char>) -> bool {
    s.len() > 0 && forall|i: int| 0 <= i < s.len() ==> is_digit(#[trigger] s[i])
}

/// The number written by the digits `s`.
pub open spec fn digits_value(s: Seq<char>) -> int
    decreases s.len(),
{
    if s.len() == 0 {
        0
    } else {
        digits_value(s.drop_last()) * 10 + (s.last() as int - '0' as int)
    }
}

/// The integer that Rust's `str::parse` reads from `s`: an optional sign
/// (`-` only where `signed`), then one or more digits.
pub open spec fn int_text_value(s: Seq<char>, signed: bool) -> Option<int> {
    if s.len() > 0 && s[0] == '+' && all_digits(s.skip(1)) {
        Some(digits_value(s.skip(1)))
    } else if signed && s.len() > 0 && s[0] == '-' && all_digits(s.skip(1)) {
        Some(-digits_value(s.skip(1)))
    } else if all_digits(s) {
        Some(digits_value(s))
    } else {
        None
    }
}

/// A prefix of digits writes no more than the whole.
pub proof fn lemma_digits_value_prefix(s: Seq<char>, k: int)
    requires
        forall|i: int| 0 <= i < s.len() ==> is_digit(#[trigger] s[i]),
        0 <= k <= s.len(),
    ensures
        0 <= digits_value(s.subrange(0, k)) <= digits_value(s),
    decreases s.len(),
{
    if s.len() > 0 {
        let t = s.drop_last();
        assert(forall|i: int| 0 <= i < t.len() ==> is_digit(#[trigger] t[i]) && t[i] == s[i]);
        assert(is_digit(s[s.len() - 1]));
        if k == s.len() {
            assert(s.subrange(0, k) =~= s);
            lemma_digits_value_prefix(t, t.len() as int);
            assert(t.subrange(0, t.len() as int) =~= t);
        } else {
            lemma_digits_value_prefix(t, k);
            assert(t.subrange(0, k) =~= s.subrange(0, k));
            lemma_digits_value_prefix(t, t.len() as int);
            assert(t.subrange(0, t.len() as int) =~= t);
        }
    } else {
        assert(s.subrange(0, k) =~= s);
    }
}

/// The magnitude written by `t[from..]`, when those are all digits and it
/// is at most `u64::MAX`.
fn digits_magnitude(t: &str, from: usize) -> (r: Option<u64>)
    requires
        from <= t@.len(),
    ensures
        match r {
            Some(v) => all_digits(t@.skip(from as int)) && v == digits_value(t@.skip(from as int)),
            None => !all_digits(t@.skip(from as int)) || digits_value(t@.skip(from as int)) > u64::MAX,
        },
{
    let n = t.unicode_len();
    let ghost d = t@.skip(from as int);
    if from >= n {
        return None;
    }
    let mut i: usize = from;
    while i < n
        invariant
            n == t@.len(),
            from <= i <= n,
            d == t@.skip(from as int),
            forall|j: int| 0 <= j < i - from ==> is_digit(#[trigger] d[j]),
        decreases n - i,
    {
        let c = t.get_char(i);
        if !('0' <= c && c <= '9') {
            assert(!is_digit(d[i - from]));
            return None;
        }
        i = i + 1;
    }
    assert(all_digits(d));
    let mut acc: u64 = 0;
    let mut k: usize = from;
    while k < n
        invariant
            n == t@.len(),
            from <= k <= n,
            d == t@.skip(from as int),
            all_digits(d),
            acc == digits_value(d.subrange(0, k - from)),
        decreases n - k,
    {
        let c = t.get_char(k);
        let ghost u = d.subrange(0, k + 1 - from);
        assert(u.drop_last() =~= d.subrange(0, k - from));
        assert(u.last() == c);
        assert(is_digit(d[k - from]));
        let dv: u64 = (c as u32 - '0' as u32) as u64;
        if acc > (u64::MAX - dv) / 10 {
            proof {
                lemma_digits_value_prefix(d, k + 1 - from);
            }
            return None;
        }
        acc = acc * 10 + dv;
        k = k + 1;
    }
    assert(d.subrange(0, n - from) =~= d);
    Some(acc)
}

/// `s.parse::<i64>().ok()`.
pub fn parse_i64(s: &str) -> (r: Option<i64>)
    ensures
        r == (match int_text_value(s@, true) {
            Some(v) => if i64::MIN <= v <= i64::MAX { Some(v as i64) } else { None },
            None => None,
        }),
{
    let n = s.unicode_len();
    if n > 0 && (s.get_char(0) == '+' || s.get_char(0) == '-') {
        let neg = s.get_char(0) == '-';
        match digits_magnitude(s, 1) {
            Some(m) => {
                if neg {
                    if m <= 9223372036854775808 {
                        if m == 9223372036854775808 {
                            Some(i64::MIN)
                        } else {
                            Some(-(m as i64))
                        }
                    } else {
                        None
                    }
                } else if m <= 9223372036854775807 {
                    Some(m as i64)
                } else {
                    None
                }
            },
            None => None,
        }
    } else {
        assert(s@.skip(0) =~= s@);
        match digits_magnitude(s, 0) {
            Some(m) => if m <= 9223372036854775807 { Some(m as i64) } else { None },
            None => None,
        }
    }
}

/// The magnitude written by `t[from..]`, when those are all digits and it
/// is at most `u128::MAX`.
fn digits_magnitude_wide(t: &str, from: usize) -> (r: Option<u128>)
    requires
        from <= t@.len(),
    ensures
        match r {
            Some(v) => all_digits(t@.skip(from as int)) && v == digits_value(t@.skip(from as int)),
            None => !all_digits(t@.skip(from as int)) || digits_value(t@.skip(from as int)) > u128::MAX,
        },
{
    let n = t.unicode_len();
    let ghost d = t@.skip(from as int);
    if from >= n {
        return None;
    }
    let mut i: usize = from;
    while i < n
        invariant
            n == t@.len(),
            from <= i <= n,
            d == t@.skip(from as int),
            forall|j: int| 0 <= j < i - from ==> is_digit(#[trigger] d[j]),
        decreases n - i,
    {
        let c = t.get_char(i);
        if !('0' <= c && c <= '9') {
            assert(!is_digit(d[i - from]));
            return None;
        }
        i = i + 1;
    }
    assert(all_digits(d));
    let mut acc: u128 = 0;
    let mut k: usize = from;
    while k < n
        invariant
            n == t@.len(),
            from <= k <= n,
            d == t@.skip(from as int),
            all_digits(d),
            acc == digits_value(d.subrange(0, k - from)),
        decreases n - k,
    {
        let c = t.get_char(k);
        let ghost u = d.subrange(0, k + 1 - from);
        assert(u.drop_last() =~= d.subrange(0, k - from));
        assert(u.last() == c);
        assert(is_digit(d[k - from]));
        let dv: u128 = (c as u32 - '0' as u32) as u128;
        if acc > (u128::MAX - dv) / 10 {
            proof {
                lemma_digits_value_prefix(d, k + 1 - from);
            }
            return None;
        }
        acc = acc * 10 + dv;
        k = k + 1;
    }
    assert(d.subrange(0, n - from) =~= d);
    Some(acc)
}

/// `s.parse::<i128>().ok()`.
pub fn parse_i128(s: &str) -> (r: Option<i128>)
    ensures
        r == (match int_text_value(s@, true) {
            Some(v) => if i128::MIN <= v <= i128::MAX { Some(v as i128) } else { None },
            None => None,
        }),
{
    let n = s.unicode_len();
    if n > 0 && (s.get_char(0) == '+' || s.get_char(0) == '-') {
        let neg = s.get_char(0) == '-';
        match digits_magnitude_wide(s, 1) {
            Some(m) => {
                if neg {
                    if m <= 170141183460469231731687303715884105728 {
                        if m == 170141183460469231731687303715884105728 {
                            Some(i128::MIN)
                        } else {
                            Some(-(m as i128))
                        }
                    } else {
                        None
                    }
                } else if m <= 170141183460469231731687303715884105727 {
                    Some(m as i128)
                } else {
                    None
                }
            },
            None => None,
        }
    } else {
        assert(s@.skip(0) =~= s@);
        match digits_magnitude_wide(s, 0) {
            Some(m) => if m <= 170141183460469231731687303715884105727 { Some(m as i128) } else { None },
            None => None,
        }
    }
}

/// `s.parse::<u32>().ok()`.
pub fn parse_u32(s: &str) -> (r: Option<u32>)
    ensures
        r == (match int_text_value(s@, false) {
            Some(v) => if 0 <= v <= u32::MAX { Some(v as u32) } else { None },
            None => None,
        }),
{
    let n = s.unicode_len();
    if n > 0 && s.get_char(0) == '-' {
        assert(!all_digits(s@)) by {
            assert(!is_digit(s@[0]));
        }
        return None;
    }
    let from: usize = if n > 0 && s.get_char(0) == '+' { 1 } else { 0 };
    assert(from == 0 ==> s@.skip(0) =~= s@);
    proof {
        if from == 1 {
            assert(!all_digits(s@)) by {
                assert(!is_digit(s@[0]));
            }
        }
    }
    match digits_magnitude(s, from) {
        Some(m) => if m <= 4294967295 { Some(m as u32) } else { None },
        None => None,
    }
}

/// Every pair of `s` is in non-decreasing order.
pub open spec fn sorted(s: Seq<Seq<char>>) -> bool {
    forall|i: int, j: int| 0 <= i < j < s.len() ==> !seq_less(#[trigger] s[j], #[trigger] s[i])
}

/// `v.sort()`: the same strings, in non-decreasing order.
pub fn sort_strings(v: Vec<String>) -> (r: Vec<String>)
    ensures
        sorted(views_of(r@)),
        views_of(r@).to_multiset() == views_of(v@).to_multiset(),
{
    broadcast use vstd::seq_lib::group_to_multiset_ensures;
    let mut out: Vec<String> = Vec::new();
    let mut i: usize = 0;
    while i < v.len()
        invariant
            i <= v@.len(),
            sorted(views_of(out@)),
            views_of(out@).to_multiset() == views_of(v@.subrange(0, i as int)).to_multiset(),
        decreases v@.len() - i,
    {
        let x = copy_string(&v[i]);
        let ghost old_out = views_of(out@);
        let mut pos: usize = 0;
        while pos < out.len() && !str_less(x.as_str(), out[pos].as_str())
            invariant
                pos <= out@.len(),
                old_out == views_of(out@),
                forall|k: int| 0 <= k < pos ==> !seq_less(x@, #[trigger] old_out[k]),
            decreases out@.len() - pos,
        {
            assert(old_out[pos as int] == out@[pos as int]@);
            pos = pos + 1;
        }
        proof {
            if pos < old_out.len() {
                assert(old_out[pos as int] == out@[pos as int]@);
                assert(seq_less(x@, old_out[pos as int]));
                assert forall|k: int| pos <= k < old_out.len() implies seq_less(x@, #[trigger] old_out[k]) by {
                    if k > pos {
                        assert(!seq_less(old_out[k], old_out[pos as int]));
                        lemma_seq_less_order(old_out[k], old_out[pos as int]);
                        if old_out[k] != old_out[pos as int] {
                            lemma_seq_less_trans(x@, old_out[pos as int], old_out[k]);
                        }
                    }
                }
            }
        }
        let ghost prefix = v@.subrange(0, i as int);
        assert(v@.subrange(0, i + 1) =~= prefix.push(v@[i as int]));
        assert(views_of(prefix.push(v@[i as int])) =~= views_of(prefix).push(x@));
        out.insert(pos, x);
        proof {
            let nv = views_of(out@);
            assert(nv =~= old_out.insert(pos as int, x@));
            vstd::seq_lib::to_multiset_insert(old_out, pos as int, x@);
            vstd::seq_lib::to_multiset_build(views_of(prefix), x@);
            assert(nv.to_multiset() == views_of(v@.subrange(0, i + 1)).to_multiset());
            assert forall|a: int, b: int| 0 <= a < b < nv.len() implies !seq_less(#[trigger] nv[b], #[trigger] nv[a]) by {
                if b < pos {
                } else if b == pos {
                    assert(nv[a] == old_out[a]);
                } else if a < pos {
                    assert(nv[b] == old_out[b - 1]);
                    assert(nv[a] == old_out[a]);
                } else if a == pos {
                    assert(nv[b] == old_out[b - 1]);
                    lemma_seq_less_order(x@, old_out[b - 1]);
                } else {
                    assert(nv[a] == old_out[a - 1] && nv[b] == old_out[b - 1]);
                }
            }
        }
        i = i + 1;
    }
    assert(v@.subrange(0, v@.len() as int) =~= v@);
    out
}

/// What `char::escape_debug` yields for `c`, as text.
pub uninterp spec fn escape_debug_of(c: char) -> Seq<char>;

/// The escapes that `char::escape_debug` gives the characters of ASCII:
/// a backslash before quotes and backslashes, `\0`, `\t`, `\r`, `\n`
/// for those control characters, and any other printable ASCII
/// character as it is.
pub open spec fn ascii_escape(c: char, r: Seq<char>) -> bool {
    if c == '"' || c == '\'' || c == '\\' {
        r == seq!['\\', c]
    } else if c == '\0' {
        r == seq!['\\', '0']
    } else if c == '\t' {
        r == seq!['\\', 't']
    } else if c == '\r' {
        r == seq!['\\', 'r']
    } else if c == '\n' {
        r == seq!['\\', 'n']
    } else if ' ' <= c <= '~' {
        r == seq![c]
    } else {
        true
    }
}

/// `char::escape_debug`, collected into a `String`. The result is named
/// by [`escape_debug_of`]; of printable ASCII and of the four control
/// characters with a short escape it is stated by [`ascii_escape`]. Of
/// other characters (left as they are, or escaped as `\u{..}`, by the
/// standard library's Unicode tables) nothing more is claimed.
#[verifier::external_body]
pub(crate) fn escape_debug(c: char) -> (r: String)
    ensures
        r@ == escape_debug_of(c),
        ascii_escape(c, r@),
{
    c.escape_debug().collect::<String>()
}

} // verus!
