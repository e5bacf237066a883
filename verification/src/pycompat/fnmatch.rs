//! Shell-style pattern matching (`fnmatch.fnmatch` on POSIX, where case is
//! kept): `*` matches any run of characters, `?` any one character,
//! `[...]` one character of a class (`[!...]` one outside it, `a-z`
//! ranges), and an unclosed `[` stands for itself.

use vstd::prelude::*;

verus! {

/// Position of the first `c` of `q` at or after `j`.
pub open spec fn first_from(q: Seq<char>, c: char, j: int) -> Option<int>
    decreases q.len() - j,
{
    if j < 0 || j >= q.len() {
        None
    } else if q[j] == c {
        Some(j)
    } else {
        first_from(q, c, j + 1)
    }
}

/// Whether the class opened by `q[0] == '['` is negated.
pub open spec fn class_negated(q: Seq<char>) -> bool {
    1 < q.len() && q[1] == '!'
}

/// Where the class body of `q` (opened by `q[0] == '['`) starts.
pub open spec fn class_start(q: Seq<char>) -> int {
    if class_negated(q) { 2 } else { 1 }
}

/// The `]` closing the class opened by `q[0] == '['`: a `]` right at the
/// start of the body belongs to the body.
pub open spec fn class_close(q: Seq<char>) -> Option<int> {
    let j0 = class_start(q);
    let j1 = if j0 < q.len() && q[j0] == ']' { j0 + 1 } else { j0 };
    first_from(q, ']', j1)
}

/// Whether `c` belongs to the class body `cls` (`x-y` is a range).
pub open spec fn in_class(cls: Seq<char>, c: char) -> bool
    decreases cls.len(),
{
    if cls.len() == 0 {
        false
    } else if cls.len() >= 3 && cls[1] == '-' {
        (cls[0] <= c && c <= cls[2]) || in_class(cls.skip(3), c)
    } else {
        cls[0] == c || in_class(cls.skip(1), c)
    }
}

/// Whether the whole of `s` matches the pattern `p`.
pub open spec fn glob_match(p: Seq<char>, s: Seq<char>) -> bool
    decreases p.len(), s.len(),
{
    if p.len() == 0 {
        s.len() == 0
    } else if p[0] == '*' {
        glob_match(p.skip(1), s) || (s.len() > 0 && glob_match(p, s.skip(1)))
    } else if p[0] == '?' {
        s.len() > 0 && glob_match(p.skip(1), s.skip(1))
    } else if p[0] == '[' && class_close(p) is Some && class_start(p) <= class_close(p).unwrap() < p.len() {
        let close = class_close(p).unwrap();
        s.len() > 0 && in_class(p.subrange(class_start(p), close), s[0]) != class_negated(p) && glob_match(
            p.skip(close + 1),
            s.skip(1),
        )
    } else {
        s.len() > 0 && s[0] == p[0] && glob_match(p.skip(1), s.skip(1))
    }
}

proof fn lemma_first_from(q: Seq<char>, c: char, j: int)
    ensures
        first_from(q, c, j) matches Some(k) ==> j <= k < q.len() && 0 <= k && q[k] == c,
    decreases q.len() - j,
{
    if 0 <= j < q.len() && q[j] != c {
        lemma_first_from(q, c, j + 1);
    }
}

/// The characters of a string.
pub fn chars_of(s: &str) -> (r: Vec<char>)
    ensures
        r@ == s@,
{
    let n = s.unicode_len();
    let mut v: Vec<char> = Vec::new();
    let mut i: usize = 0;
    while i < n
        invariant
            n == s@.len(),
            i <= n,
            v@ =~= s@.subrange(0, i as int),
        decreases n - i,
    {
        v.push(s.get_char(i));
        i = i + 1;
    }
    assert(v@ =~= s@);
    v
}

fn find_from(q: &Vec<char>, lo: usize, c: char, j: usize) -> (r: Option<usize>)
    requires
        lo <= j,
        lo <= q@.len(),
    ensures
        match first_from(q@.skip(lo as int), c, (j - lo) as int) {
            Some(k) => r == Some((k + lo) as usize),
            None => r is None,
        },
    decreases q@.len() - j,
{
    if j >= q.len() {
        return None;
    }
    assert(q@.skip(lo as int)[j - lo] == q@[j as int]);
    if q[j] == c {
        return Some(j);
    }
    find_from(q, lo, c, j + 1)
}

fn class_has(p: &Vec<char>, a: usize, b: usize, c: char) -> (r: bool)
    requires
        a <= b <= p@.len(),
    ensures
        r == in_class(p@.subrange(a as int, b as int), c),
    decreases b - a,
{
    if a >= b {
        return false;
    }
    let cls = Ghost(p@.subrange(a as int, b as int));
    if b - a >= 3 && p[a + 1] == '-' {
        assert(cls@.skip(3) =~= p@.subrange(a + 3, b as int));
        (p[a] <= c && c <= p[a + 2]) || class_has(p, a + 3, b, c)
    } else {
        assert(cls@.skip(1) =~= p@.subrange(a + 1, b as int));
        p[a] == c || class_has(p, a + 1, b, c)
    }
}

fn glob_from(p: &Vec<char>, pi: usize, s: &Vec<char>, si: usize) -> (r: bool)
    requires
        pi <= p@.len(),
        si <= s@.len(),
    ensures
        r == glob_match(p@.skip(pi as int), s@.skip(si as int)),
    decreases p@.len() - pi, s@.len() - si,
{
    let ghost pp = p@.skip(pi as int);
    let ghost ss = s@.skip(si as int);
    if pi == p.len() {
        return si == s.len();
    }
    let c = p[pi];
    if si < s.len() {
        assert(ss.skip(1) =~= s@.skip(si + 1));
    }
    assert(pp.skip(1) =~= p@.skip(pi + 1));
    if c == '*' {
        if glob_from(p, pi + 1, s, si) {
            return true;
        }
        si < s.len() && glob_from(p, pi, s, si + 1)
    } else if c == '?' {
        si < s.len() && glob_from(p, pi + 1, s, si + 1)
    } else if c == '[' {
        let j0: usize = if pi + 1 < p.len() && p[pi + 1] == '!' { pi + 2 } else { pi + 1 };
        let j1: usize = if j0 < p.len() && p[j0] == ']' { j0 + 1 } else { j0 };
        assert(class_start(pp) == j0 - pi);
        match find_from(p, pi, ']', j1) {
            Some(close) => {
                proof {
                    lemma_first_from(pp, ']', (j1 - pi) as int);
                    assert(class_close(pp) == Some((close - pi) as int));
                    assert(class_start(pp) <= close - pi < pp.len());
                    assert(pp.subrange(class_start(pp), close - pi) =~= p@.subrange(j0 as int, close as int));
                    assert(pp.skip(close - pi + 1) =~= p@.skip(close + 1));
                }
                if si >= s.len() {
                    return false;
                }
                let negated = pi + 1 < p.len() && p[pi + 1] == '!';
                let member = class_has(p, j0, close, s[si]);
                member != negated && glob_from(p, close + 1, s, si + 1)
            },
            None => {
                si < s.len() && s[si] == c && glob_from(p, pi + 1, s, si + 1)
            },
        }
    } else {
        si < s.len() && s[si] == c && glob_from(p, pi + 1, s, si + 1)
    }
}

/// `fnmatch.fnmatch(name, pattern)`.
pub fn fnmatch(name: &str, pattern: &str) -> (r: bool)
    ensures
        r == glob_match(pattern@, name@),
{
    let p = chars_of(pattern);
    let s = chars_of(name);
    assert(p@.skip(0) =~= p@);
    assert(s@.skip(0) =~= s@);
    glob_from(&p, 0, &s, 0)
}

} // verus!
