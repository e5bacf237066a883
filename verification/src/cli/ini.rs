//! The `[bandit]` section of an INI file (`.bandit`): its `key = value`
//! lines.

use vstd::prelude::*;
use crate::engine::nosec::{is_space, space};
use crate::text::{push_char, str_eq, to_owned_string, views_of};

verus! {

/// The lines of `t` from the front, as `str::lines` gives them: split at
/// `\n`, a `\r` before the `\n` dropped, no line after a final `\n`.
/// `done` holds the lines so far and `cur` the line being read.
pub open spec fn lines_from(t: Seq<char>, done: Seq<Seq<char>>, cur: Seq<char>) -> Seq<Seq<char>>
    decreases t.len(),
{
    if t.len() == 0 {
        if cur.len() > 0 { done.push(cur) } else { done }
    } else if t[0] == '\n' {
        lines_from(t.skip(1), done.push(strip_cr(cur)), Seq::empty())
    } else {
        lines_from(t.skip(1), done, cur.push(t[0]))
    }
}

/// A line without its final `\r`.
pub open spec fn strip_cr(l: Seq<char>) -> Seq<char> {
    if l.len() > 0 && l.last() == '\r' { l.drop_last() } else { l }
}

/// `str::lines`.
pub open spec fn text_lines(t: Seq<char>) -> Seq<Seq<char>> {
    lines_from(t, Seq::empty(), Seq::empty())
}

/// The first position at or after `j` that holds no white space.
pub open spec fn lead_end(s: Seq<char>, j: int) -> int
    decreases s.len() - j,
{
    if 0 <= j < s.len() && is_space(s[j]) { lead_end(s, j + 1) } else { j }
}

/// The position just after the last character before `j` that is not
/// white space (0 where there is none).
pub open spec fn trail_end(s: Seq<char>, j: int) -> int
    decreases j,
{
    if 0 < j <= s.len() && is_space(s[j - 1]) { trail_end(s, j - 1) } else { j }
}

/// `str::trim`: `s` without white space at either end.
pub open spec fn trimmed(s: Seq<char>) -> Seq<char> {
    let a = lead_end(s, 0);
    let b = trail_end(s, s.len() as int);
    if a < b { s.subrange(a, b) } else { Seq::empty() }
}

/// The first position at or after `j` of `c` in `s`.
pub open spec fn first_from(s: Seq<char>, c: char, j: int) -> Option<int>
    decreases s.len() - j,
{
    if j < 0 || j >= s.len() {
        None
    } else if s[j] == c {
        Some(j)
    } else {
        first_from(s, c, j + 1)
    }
}

/// Key and value of a line, split at its first `=`, else at its first
/// `:`, each trimmed.
pub open spec fn entry_of(t: Seq<char>) -> Option<(Seq<char>, Seq<char>)> {
    match first_from(t, '=', 0) {
        Some(i) => Some((trimmed(t.subrange(0, i)), trimmed(t.subrange(i + 1, t.len() as int)))),
        None => match first_from(t, ':', 0) {
            Some(i) => Some((trimmed(t.subrange(0, i)), trimmed(t.subrange(i + 1, t.len() as int)))),
            None => None,
        },
    }
}

/// Whether a trimmed line is a section header `[name]`.
pub open spec fn is_header(t: Seq<char>) -> bool {
    t.len() >= 2 && t[0] == '[' && t.last() == ']'
}

/// The reading state after one more line: whether the section is being
/// read, whether it was found, and its entries so far. A header opens or
/// closes the section; inside it, blank lines and comments (`#`, `;`) are
/// passed over and other lines give an entry where they hold `=` or `:`.
pub open spec fn ini_step(
    st: (bool, bool, Seq<(Seq<char>, Seq<char>)>),
    line: Seq<char>,
    section: Seq<char>,
) -> (bool, bool, Seq<(Seq<char>, Seq<char>)>) {
    let t = trimmed(line);
    if is_header(t) {
        let inside = t.subrange(1, t.len() - 1) == section;
        (inside, st.1 || inside, st.2)
    } else if !st.0 || t.len() == 0 || t[0] == '#' || t[0] == ';' {
        st
    } else {
        match entry_of(t) {
            Some(e) => (st.0, st.1, st.2.push(e)),
            None => st,
        }
    }
}

/// The reading state after the lines `ls`.
pub open spec fn ini_state(ls: Seq<Seq<char>>, section: Seq<char>) -> (bool, bool, Seq<(Seq<char>, Seq<char>)>)
    decreases ls.len(),
{
    if ls.len() == 0 {
        (false, false, Seq::empty())
    } else {
        ini_step(ini_state(ls.drop_last(), section), ls.last(), section)
    }
}

/// The entries of section `section` of the INI text `text`, in order
/// (those of every part of the file with that header), or `None` when no
/// such header occurs.
pub open spec fn ini_section_spec(text: Seq<char>, section: Seq<char>) -> Option<Seq<(Seq<char>, Seq<char>)>> {
    let st = ini_state(text_lines(text), section);
    if st.1 { Some(st.2) } else { None }
}

/// The views of key-value pairs.
pub open spec fn pair_views(s: Seq<(String, String)>) -> Seq<(Seq<char>, Seq<char>)> {
    s.map_values(|p: (String, String)| (p.0@, p.1@))
}

fn strip_cr_of(l: String) -> (r: String)
    ensures
        r@ == strip_cr(l@),
{
    let n = l.unicode_len();
    if n > 0 && l.get_char(n - 1) == '\r' {
        let t = l.as_str().substring_char(0, n - 1);
        let r = to_owned_string(t);
        assert(r@ =~= l@.drop_last());
        r
    } else {
        l
    }
}

/// `text.lines()`.
pub fn lines_of(text: &str) -> (r: Vec<String>)
    ensures
        views_of(r@) == text_lines(text@),
{
    let n = text.unicode_len();
    let mut done: Vec<String> = Vec::new();
    let mut cur = String::new();
    let mut i: usize = 0;
    assert(text@.skip(0) =~= text@);
    assert(views_of(done@) =~= Seq::<Seq<char>>::empty());
    assert(cur@ =~= Seq::<char>::empty());
    while i < n
        invariant
            n == text@.len(),
            i <= n,
            text_lines(text@) == lines_from(text@.skip(i as int), views_of(done@), cur@),
        decreases n - i,
    {
        let c = text.get_char(i);
        assert(text@.skip(i as int)[0] == c);
        assert(text@.skip(i as int).skip(1) =~= text@.skip(i + 1));
        if c == '\n' {
            let line = strip_cr_of(cur);
            let ghost before = views_of(done@);
            done.push(line);
            assert(views_of(done@) =~= before.push(line@));
            cur = String::new();
            assert(cur@ =~= Seq::<char>::empty());
        } else {
            push_char(&mut cur, c);
        }
        i = i + 1;
    }
    assert(text@.skip(n as int).len() == 0);
    if cur.unicode_len() > 0 {
        let ghost before = views_of(done@);
        let ghost cv = cur@;
        done.push(cur);
        assert(views_of(done@) =~= before.push(cv));
    }
    done
}

/// `s.trim()`.
pub fn trim_text(s: &str) -> (r: String)
    ensures
        r@ == trimmed(s@),
{
    let n = s.unicode_len();
    let mut a: usize = 0;
    while a < n && space(s.get_char(a))
        invariant
            n == s@.len(),
            a <= n,
            lead_end(s@, 0) == lead_end(s@, a as int),
        decreases n - a,
    {
        a = a + 1;
    }
    let mut b: usize = n;
    while b > 0 && space(s.get_char(b - 1))
        invariant
            n == s@.len(),
            b <= n,
            trail_end(s@, n as int) == trail_end(s@, b as int),
        decreases b,
    {
        b = b - 1;
    }
    if a < b {
        to_owned_string(s.substring_char(a, b))
    } else {
        String::new()
    }
}

fn first_pos(s: &str, c: char) -> (r: Option<usize>)
    ensures
        match r {
            Some(k) => first_from(s@, c, 0) == Some(k as int),
            None => first_from(s@, c, 0) is None,
        },
{
    let n = s.unicode_len();
    let mut i: usize = 0;
    while i < n
        invariant
            n == s@.len(),
            i <= n,
            first_from(s@, c, 0) == first_from(s@, c, i as int),
        decreases n - i,
    {
        if s.get_char(i) == c {
            return Some(i);
        }
        i = i + 1;
    }
    None
}

fn split_at_pos(t: &str, i: usize) -> (r: (String, String))
    requires
        i < t@.len(),
    ensures
        r.0@ == trimmed(t@.subrange(0, i as int)),
        r.1@ == trimmed(t@.subrange(i + 1, t@.len() as int)),
{
    let n = t.unicode_len();
    (trim_text(t.substring_char(0, i)), trim_text(t.substring_char(i + 1, n)))
}

fn entry_in(t: &str) -> (r: Option<(String, String)>)
    ensures
        match entry_of(t@) {
            Some(e) => r is Some && r.unwrap().0@ == e.0 && r.unwrap().1@ == e.1,
            None => r is None,
        },
{
    match first_pos(t, '=') {
        Some(i) => {
            proof { lemma_first_from(t@, '=', 0); }
            Some(split_at_pos(t, i))
        },
        None => match first_pos(t, ':') {
            Some(i) => {
                proof { lemma_first_from(t@, ':', 0); }
                Some(split_at_pos(t, i))
            },
            None => None,
        },
    }
}

proof fn lemma_first_from(s: Seq<char>, c: char, j: int)
    ensures
        first_from(s, c, j) matches Some(i) ==> 0 <= i < s.len(),
    decreases s.len() - j,
{
    if 0 <= j < s.len() && s[j] != c {
        lemma_first_from(s, c, j + 1);
    }
}

/// The entries of section `section` of the INI text `text`, in order, or
/// `None` when it has no such section.
pub fn ini_section(text: &str, section: &str) -> (r: Option<Vec<(String, String)>>)
    ensures
        match ini_section_spec(text@, section@) {
            Some(e) => r is Some && pair_views(r.unwrap()@) == e,
            None => r is None,
        },
{
    let ls = lines_of(text);
    let ghost lv = views_of(ls@);
    let mut inside = false;
    let mut found = false;
    let mut out: Vec<(String, String)> = Vec::new();
    let mut k: usize = 0;
    assert(lv.subrange(0, 0) =~= Seq::<Seq<char>>::empty());
    assert(pair_views(out@) =~= Seq::<(Seq<char>, Seq<char>)>::empty());
    while k < ls.len()
        invariant
            lv == views_of(ls@),
            k <= ls@.len(),
            ini_state(lv.subrange(0, k as int), section@) == (inside, found, pair_views(out@)),
        decreases ls@.len() - k,
    {
        let ghost pre = lv.subrange(0, k as int);
        let ghost cur = lv.subrange(0, k + 1);
        assert(cur.drop_last() =~= pre);
        assert(cur.last() == ls@[k as int]@);
        let t = trim_text(ls[k].as_str());
        let tn = t.unicode_len();
        if tn >= 2 && t.get_char(0) == '[' && t.get_char(tn - 1) == ']' {
            let name = t.as_str().substring_char(1, tn - 1);
            inside = str_eq(name, section);
            found = found || inside;
        } else if !inside || tn == 0 || t.get_char(0) == '#' || t.get_char(0) == ';' {
        } else {
            match entry_in(t.as_str()) {
                Some(e) => {
                    let ghost before = pair_views(out@);
                    let ghost ev = (e.0@, e.1@);
                    out.push(e);
                    assert(pair_views(out@) =~= before.push(ev));
                },
                None => {},
            }
        }
        k = k + 1;
    }
    assert(lv.subrange(0, ls@.len() as int) =~= lv);
    if found {
        Some(out)
    } else {
        None
    }
}

} // verus!
