//! `# nosec` comments: which comment lines silence which tests.
//!
//! * A comment is a nosec comment when it matches
//!   `#\s*nosec:?\s*(?P<tests>[^#]+)?#?` anywhere; without the `tests`
//!   group it silences every test.
//! * The `tests` group is split at commas and whitespace; each token that
//!   is a known id is kept, a known test or blacklist name is mapped to its
//!   id, any other token is reported and dropped. An id list that ends up
//!   empty still silences every test.
//! * For a node, the first line of its line range that has a nosec comment
//!   decides.

use vstd::prelude::*;
use crate::engine::issue::{LineRange, range_lines};
use crate::engine::registry::{resolve_test_token, resolved_token};
use crate::fx::{no_strings, str_set, strset_insert, strset_new, StrSet};
use crate::text::{copy_string, push_char, views_of};
use rustc_hash::{FxBuildHasher, FxHashMap};

verus! {

/// The first position at or after `j` that holds no white space (the
/// length where there is none).
pub open spec fn spaces_end(s: Seq<char>, j: int) -> int
    decreases s.len() - j,
{
    if 0 <= j < s.len() && is_space(s[j]) {
        spaces_end(s, j + 1)
    } else {
        j
    }
}

/// The first position at or after `j` that holds a `#` (the length where
/// there is none).
pub open spec fn hash_at_or_after(s: Seq<char>, j: int) -> int
    decreases s.len() - j,
{
    if 0 <= j < s.len() && s[j] != '#' {
        hash_at_or_after(s, j + 1)
    } else {
        j
    }
}

/// Whether the nosec pattern matches at position `i`: a `#`, white
/// space, then `nosec`.
pub open spec fn nosec_starts_at(s: Seq<char>, i: int) -> bool {
    let j = spaces_end(s, i + 1);
    0 <= i < s.len() && s[i] == '#' && j + 5 <= s.len() && s.subrange(j, j + 5) == "nosec"@
}

/// The first position at or after `i` where the nosec pattern matches.
pub open spec fn first_nosec(s: Seq<char>, i: int) -> Option<int>
    decreases s.len() - i,
{
    if i < 0 || i >= s.len() {
        None
    } else if nosec_starts_at(s, i) {
        Some(i)
    } else {
        first_nosec(s, i + 1)
    }
}

/// The `tests` group of a match at `i`: after `nosec`, an optional `:`
/// and white space, the run of characters up to the next `#` or the end;
/// absent when that run is empty.
pub open spec fn tests_group(s: Seq<char>, i: int) -> Option<Seq<char>> {
    let j = spaces_end(s, i + 1) + 5;
    let j2 = if j < s.len() && s[j] == ':' { j + 1 } else { j };
    let k = spaces_end(s, j2);
    let e = hash_at_or_after(s, k);
    if e > k { Some(s.subrange(k, e)) } else { None }
}

/// The `tests` group of the first match of the nosec pattern
/// `#\s*nosec:?\s*(?P<tests>[^#]+)?#?` in a comment: `None` when there is
/// no match, `Some(None)` when the group did not take part.
pub open spec fn nosec_match(comment: Seq<char>) -> Option<Option<Seq<char>>> {
    match first_nosec(comment, 0) {
        Some(i) => Some(tests_group(comment, i)),
        None => None,
    }
}

/// `Regex::captures` with the nosec pattern, and the text of its `tests`
/// group: the leftmost match, each repetition taking as much as it can
/// (`\s` is Unicode white space), as [`nosec_match`] states.
#[verifier::external_body]
fn nosec_captures(comment: &str) -> (r: Option<Option<String>>)
    ensures
        match r {
            None => nosec_match(comment@) is None,
            Some(None) => nosec_match(comment@) == Some(None::<Seq<char>>),
            Some(Some(t)) => nosec_match(comment@) == Some(Some(t@)),
        },
{
    let re = regex::Regex::new(r"#\s*nosec:?\s*(?P<tests>[^#]+)?#?").unwrap();
    re.captures(comment).map(|c| c.name("tests").map(|m| m.as_str().to_string()))
}

/// `char::is_whitespace`: the Unicode `White_Space` characters.
pub open spec fn is_space(c: char) -> bool {
    let u = c as u32;
    (9 <= u && u <= 13) || u == 32 || u == 0x85 || u == 0xa0 || u == 0x1680 || (0x2000 <= u && u <= 0x200a)
        || u == 0x2028 || u == 0x2029 || u == 0x202f || u == 0x205f || u == 0x3000
}

pub(crate) fn space(c: char) -> (r: bool)
    ensures
        r == is_space(c),
{
    let u = c as u32;
    (9 <= u && u <= 13) || u == 32 || u == 0x85 || u == 0xa0 || u == 0x1680 || (0x2000 <= u && u <= 0x200a)
        || u == 0x2028 || u == 0x2029 || u == 0x202f || u == 0x205f || u == 0x3000
}

/// Whether `c` separates tokens.
pub open spec fn is_separator(c: char) -> bool {
    c == ',' || is_space(c)
}

/// The tokens of `s` between separators, with the token still being read
/// (`cur`), in order; empty tokens are dropped.
pub open spec fn tokens_from(s: Seq<char>, done: Seq<Seq<char>>, cur: Seq<char>) -> Seq<Seq<char>>
    decreases s.len(),
{
    if s.len() == 0 {
        if cur.len() > 0 { done.push(cur) } else { done }
    } else if is_separator(s[0]) {
        tokens_from(s.skip(1), if cur.len() > 0 { done.push(cur) } else { done }, Seq::empty())
    } else {
        tokens_from(s.skip(1), done, cur.push(s[0]))
    }
}

/// The tokens of `s`.
pub open spec fn tokens(s: Seq<char>) -> Seq<Seq<char>> {
    tokens_from(s, Seq::empty(), Seq::empty())
}

/// The tokens of `s`, split at commas and whitespace.
pub fn split_tokens(s: &str) -> (r: Vec<String>)
    ensures
        views_of(r@) == tokens(s@),
{
    let n = s.unicode_len();
    let mut done: Vec<String> = Vec::new();
    let mut cur = String::new();
    let mut i: usize = 0;
    assert(s@.skip(0) =~= s@);
    assert(views_of(done@) =~= Seq::<Seq<char>>::empty());
    assert(cur@ =~= Seq::<char>::empty());
    while i < n
        invariant
            n == s@.len(),
            i <= n,
            tokens(s@) == tokens_from(s@.skip(i as int), views_of(done@), cur@),
        decreases n - i,
    {
        let c = s.get_char(i);
        assert(s@.skip(i as int)[0] == c);
        assert(s@.skip(i as int).skip(1) =~= s@.skip(i + 1));
        if c == ',' || space(c) {
            if cur.unicode_len() > 0 {
                let ghost b = views_of(done@);
                let t = cur;
                done.push(t);
                assert(views_of(done@) =~= b.push(t@));
                cur = String::new();
            }
            assert(cur@ =~= Seq::<char>::empty());
        } else {
            push_char(&mut cur, c);
        }
        i = i + 1;
    }
    if cur.unicode_len() > 0 {
        let ghost b = views_of(done@);
        let t = cur;
        done.push(t);
        assert(views_of(done@) =~= b.push(t@));
    }
    done
}

/// The ids a token list resolves to, in order, unknown tokens dropped.
pub open spec fn resolved_ids(t: Seq<Seq<char>>) -> Seq<Seq<char>>
    decreases t.len(),
{
    if t.len() == 0 {
        Seq::empty()
    } else {
        resolved_ids(t.drop_last()) + match resolved_token(t.last()) {
            Some(id) => seq![id],
            None => Seq::empty(),
        }
    }
}

/// The tokens of a list that resolve to no test, in order.
pub open spec fn unknown_tokens(t: Seq<Seq<char>>) -> Seq<Seq<char>>
    decreases t.len(),
{
    if t.len() == 0 {
        Seq::empty()
    } else {
        unknown_tokens(t.drop_last()) + match resolved_token(t.last()) {
            Some(_) => Seq::empty(),
            None => seq![t.last()],
        }
    }
}

/// What a comment says: `None` for a plain comment, else the test ids it
/// silences (none for all of them).
pub open spec fn nosec_ids(comment: Seq<char>) -> Option<Set<Seq<char>>> {
    match nosec_match(comment) {
        None => None,
        Some(None) => Some(Set::empty()),
        Some(Some(t)) => Some(resolved_ids(tokens(t)).to_set()),
    }
}

/// The unknown tokens of a comment, to be reported.
pub open spec fn nosec_unknown(comment: Seq<char>) -> Seq<Seq<char>> {
    match nosec_match(comment) {
        Some(Some(t)) => unknown_tokens(tokens(t)),
        _ => Seq::empty(),
    }
}

/// `_parse_nosec_comment(comment)`: `None` for a plain comment, the ids it
/// silences otherwise (none for all), and the tokens that name no test.
pub fn parse_nosec_comment(comment: &str) -> (r: (Option<StrSet>, Vec<String>))
    ensures
        match r.0 {
            None => nosec_ids(comment@) is None,
            Some(ids) => nosec_ids(comment@) == Some(str_set(ids)),
        },
        views_of(r.1@) == nosec_unknown(comment@),
{
    match nosec_captures(comment) {
        None => (None, Vec::new()),
        Some(None) => (Some(strset_new()), Vec::new()),
        Some(Some(t)) => {
            let toks = split_tokens(t.as_str());
            let mut ids = strset_new();
            let mut unknown: Vec<String> = Vec::new();
            let mut i: usize = 0;
            assert(Seq::<Seq<char>>::empty().to_set() =~= no_strings());
            assert(views_of(toks@).subrange(0, 0) =~= Seq::<Seq<char>>::empty());
            while i < toks.len()
                invariant
                    i <= toks@.len(),
                    str_set(ids) == resolved_ids(views_of(toks@).subrange(0, i as int)).to_set(),
                    views_of(unknown@) == unknown_tokens(views_of(toks@).subrange(0, i as int)),
                decreases toks@.len() - i,
            {
                let ghost pre = views_of(toks@).subrange(0, i as int);
                let ghost cur = views_of(toks@).subrange(0, i + 1);
                assert(cur.drop_last() =~= pre);
                assert(cur.last() == toks@[i as int]@);
                match resolve_test_token(toks[i].as_str()) {
                    Some(id) => {
                        proof {
                            let rp = resolved_ids(pre);
                            assert(resolved_ids(cur) =~= rp.push(id@));
                            rp.lemma_push_to_set_commute(id@);
                        }
                        strset_insert(&mut ids, id);
                        assert(unknown_tokens(cur) =~= unknown_tokens(pre));
                    },
                    None => {
                        assert(resolved_ids(cur) =~= resolved_ids(pre));
                        let x = copy_string(&toks[i]);
                        let ghost b = views_of(unknown@);
                        unknown.push(x);
                        assert(views_of(unknown@) =~= b.push(x@));
                        assert(unknown_tokens(cur) =~= unknown_tokens(pre).push(x@));
                    },
                }
                i = i + 1;
            }
            assert(views_of(toks@).subrange(0, toks@.len() as int) =~= views_of(toks@));
            (Some(ids), unknown)
        },
    }
}

/// The lines of nosec data: the line of each comment and what it says.
pub type LineMap = FxHashMap<u32, Option<StrSet>>;

/// What a table of lines says of each line, by the text of the ids.
pub uninterp spec fn line_table(
    m: std::collections::HashMap<u32, Option<std::collections::HashSet<String, FxBuildHasher>>, FxBuildHasher>,
) -> Map<u32, Option<Set<Seq<char>>>>;

/// The ids of an optional set, by their text.
pub open spec fn opt_strs(o: Option<StrSet>) -> Option<Set<Seq<char>>> {
    match o {
        Some(s) => Some(str_set(s)),
        None => None,
    }
}

/// The table of no line.
pub open spec fn no_lines() -> Map<u32, Option<Set<Seq<char>>>> {
    Map::empty()
}

/// `FxHashMap::default()`: a table of no line.
#[verifier::external_body]
fn lines_new() -> (r: LineMap)
    ensures
        line_table(r) == no_lines(),
{
    FxHashMap::default()
}

/// `HashMap::insert`: `line` now says `v`, whatever it said.
#[verifier::external_body]
fn lines_insert(m: &mut LineMap, line: u32, v: Option<StrSet>)
    ensures
        line_table(*final(m)) == line_table(*old(m)).insert(line, opt_strs(v)),
{
    m.insert(line, v);
}

/// `HashMap::get`: what `line` says, if the table has it.
#[verifier::external_body]
fn lines_get(m: &LineMap, line: u32) -> (r: Option<&Option<StrSet>>)
    ensures
        match r {
            Some(o) => line_table(*m).contains_key(line) && line_table(*m)[line] == opt_strs(*o),
            None => !line_table(*m).contains_key(line),
        },
{
    m.get(&line)
}

/// Nosec comments of a file: line number → `None` for a plain comment,
/// the ids it silences for a nosec comment. A later comment on a line
/// overrides an earlier one.
#[derive(Debug, Clone)]
pub struct NosecLines {
    pub lines: LineMap,
}

/// `nosec_lines.get(line)`: the ids of the comment on `line` when it is a
/// nosec comment.
pub open spec fn ids_on(n: NosecLines, line: u32) -> Option<Set<Seq<char>>> {
    if line_table(n.lines).contains_key(line) {
        line_table(n.lines)[line]
    } else {
        None
    }
}

/// `get_nosec`: the ids of the first line of `lines` with a nosec comment.
pub open spec fn first_ids(n: NosecLines, lines: Seq<u32>) -> Option<Set<Seq<char>>>
    decreases lines.len(),
{
    if lines.len() == 0 {
        None
    } else {
        match ids_on(n, lines[0]) {
            Some(ids) => Some(ids),
            None => first_ids(n, lines.skip(1)),
        }
    }
}

/// What the comments `comments` (line and text) say of their lines, later
/// comments on a line overriding earlier ones.
pub open spec fn comments_table(comments: Seq<(u32, String)>) -> Map<u32, Option<Set<Seq<char>>>>
    decreases comments.len(),
{
    if comments.len() == 0 {
        no_lines()
    } else {
        comments_table(comments.drop_last()).insert(comments.last().0, nosec_ids(comments.last().1@))
    }
}

/// The tokens of the comments `comments` that name no test, in order.
pub open spec fn comments_unknown(comments: Seq<(u32, String)>) -> Seq<Seq<char>>
    decreases comments.len(),
{
    if comments.len() == 0 {
        Seq::empty()
    } else {
        comments_unknown(comments.drop_last()) + nosec_unknown(comments.last().1@)
    }
}

impl NosecLines {
    /// The nosec lines of the comments `(line, text)` of a file, and the
    /// tokens that name no test, in comment order.
    pub fn from_comments(comments: &Vec<(u32, String)>) -> (r: (NosecLines, Vec<String>))
        ensures
            line_table(r.0.lines) == comments_table(comments@),
            views_of(r.1@) == comments_unknown(comments@),
    {
        let mut lines = lines_new();
        let mut unknown: Vec<String> = Vec::new();
        let mut i: usize = 0;
        assert(comments@.subrange(0, 0) =~= Seq::<(u32, String)>::empty());
        while i < comments.len()
            invariant
                i <= comments@.len(),
                line_table(lines) == comments_table(comments@.subrange(0, i as int)),
                views_of(unknown@) == comments_unknown(comments@.subrange(0, i as int)),
            decreases comments@.len() - i,
        {
            let (ids, mut bad) = parse_nosec_comment(comments[i].1.as_str());
            proof {
                let cur = comments@.subrange(0, i + 1);
                assert(cur.drop_last() =~= comments@.subrange(0, i as int));
                assert(cur.last() == comments@[i as int]);
            }
            lines_insert(&mut lines, comments[i].0, ids);
            let ghost u = unknown@;
            let ghost bv = bad@;
            unknown.append(&mut bad);
            proof {
                assert(unknown@ =~= u + bv);
                assert(views_of(unknown@) =~= views_of(u) + views_of(bv));
            }
            i = i + 1;
        }
        assert(comments@.subrange(0, comments@.len() as int) =~= comments@);
        (NosecLines { lines }, unknown)
    }

    /// The ids silenced on `line` (none for all), if it has a nosec
    /// comment.
    pub fn get(&self, line: u32) -> (r: Option<&StrSet>)
        ensures
            match ids_on(*self, line) {
                Some(ids) => r is Some && str_set(*r.unwrap()) == ids,
                None => r is None,
            },
    {
        match lines_get(&self.lines, line) {
            Some(o) => match o {
                Some(s) => Some(s),
                None => None,
            },
            None => None,
        }
    }

    /// `get_nosec(nosec_lines, context)`: the first line of `range` with a
    /// nosec comment decides.
    pub fn for_range(&self, range: LineRange) -> (r: Option<&StrSet>)
        ensures
            match first_ids(*self, range_lines(range)) {
                Some(ids) => r is Some && str_set(*r.unwrap()) == ids,
                None => r is None,
            },
    {
        let lines = range.to_vec();
        let mut i: usize = 0;
        assert(lines@.skip(0) =~= lines@);
        while i < lines.len()
            invariant
                i <= lines@.len(),
                lines@ == range_lines(range),
                first_ids(*self, lines@) == first_ids(*self, lines@.skip(i as int)),
            decreases lines@.len() - i,
        {
            assert(lines@.skip(i as int)[0] == lines@[i as int]);
            assert(lines@.skip(i as int).skip(1) =~= lines@.skip(i + 1));
            match self.get(lines[i]) {
                Some(v) => {
                    return Some(v);
                },
                None => {},
            }
            i = i + 1;
        }
        None
    }
}

} // verus!
