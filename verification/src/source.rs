//! Source files held in memory, read line by line the way Python's
//! `linecache.getline` reads them.

use vstd::prelude::*;
use crate::text::{push_char, copy_string, copy_strings, views_of};

verus! {

/// Position of the first `'\n'` of `s` at or after `i` (`s.len()` when
/// there is none).
pub open spec fn first_newline(s: Seq<char>, i: nat) -> nat
    decreases s.len() - i,
{
    if i >= s.len() {
        s.len()
    } else if s[i as int] == '\n' {
        i
    } else {
        first_newline(s, i + 1)
    }
}

/// `s` split into lines, each keeping its terminating `'\n'`; a last line
/// without one is kept too, and nothing follows a final `'\n'`.
pub open spec fn split_lines(s: Seq<char>) -> Seq<Seq<char>>
    decreases s.len(),
{
    if s.len() == 0 {
        Seq::empty()
    } else {
        let k = first_newline(s, 0) as int;
        if k < s.len() {
            seq![s.subrange(0, k + 1)] + split_lines(s.skip(k + 1))
        } else {
            seq![s]
        }
    }
}

/// Line `n` (1-based) of `lines`, or the empty sequence when there is no
/// such line (`linecache.getline`).
pub open spec fn line_at(lines: Seq<Seq<char>>, n: int) -> Seq<char> {
    if 1 <= n <= lines.len() {
        lines[n - 1]
    } else {
        Seq::empty()
    }
}

proof fn lemma_first_newline(s: Seq<char>, j: nat, k: nat)
    requires
        j <= k < s.len(),
        s[k as int] == '\n',
        forall|m: int| j <= m < k ==> s[m] != '\n',
    ensures
        first_newline(s, j) == k,
    decreases k - j,
{
    if j < k {
        lemma_first_newline(s, j + 1, k);
    }
}

proof fn lemma_no_newline(s: Seq<char>, j: nat)
    requires
        j <= s.len(),
        forall|m: int| j <= m < s.len() ==> s[m] != '\n',
    ensures
        first_newline(s, j) == s.len(),
    decreases s.len() - j,
{
    if j < s.len() {
        lemma_no_newline(s, j + 1);
    }
}

/// The views of a vector of strings.
pub open spec fn string_views(v: Seq<String>) -> Seq<Seq<char>> {
    v.map_values(|x: String| x@)
}

/// A source file: its name and its lines.
#[derive(Debug, Clone)]
pub struct SourceFile {
    pub name: String,
    pub lines: Vec<String>,
}

impl SourceFile {
    /// The lines of the file, as split by [`split_lines`].
    pub open spec fn lines_view(&self) -> Seq<Seq<char>> {
        string_views(self.lines@)
    }

    /// Reads `text` as the contents of the file called `name`.
    pub fn new(name: &str, text: &str) -> (r: SourceFile)
        ensures
            r.name@ == name@,
            r.lines_view() == split_lines(text@),
    {
        let s = text;
        let n = s.unicode_len();
        let mut lines: Vec<String> = Vec::new();
        let mut cur = String::new();
        let mut start: usize = 0;
        let mut i: usize = 0;
        assert(s@.skip(0) =~= s@);
        while i < n
            invariant
                n == s@.len(),
                start <= i <= n,
                cur@ =~= s@.subrange(start as int, i as int),
                forall|m: int| start <= m < i ==> s@[m] != '\n',
                split_lines(s@) == string_views(lines@) + split_lines(s@.skip(start as int)),
            decreases n - i,
        {
            let c = s.get_char(i);
            push_char(&mut cur, c);
            if c == '\n' {
                proof {
                    let t = s@.skip(start as int);
                    assert forall|m: int| 0 <= m < i - start implies t[m] != '\n' by {
                        assert(t[m] == s@[start + m]);
                    }
                    lemma_first_newline(t, 0, (i - start) as nat);
                    assert(t.subrange(0, i - start + 1) =~= cur@);
                    assert(t.skip(i - start + 1) =~= s@.skip(i + 1));
                    assert(string_views(lines@.push(cur)) =~= string_views(lines@).push(cur@));
                }
                lines.push(cur);
                cur = String::new();
                start = i + 1;
                proof {
                    assert(split_lines(s@) =~= string_views(lines@) + split_lines(s@.skip(start as int)));
                }
            }
            i = i + 1;
        }
        if start < n {
            proof {
                let t = s@.skip(start as int);
                assert forall|m: int| 0 <= m < t.len() implies t[m] != '\n' by {
                    assert(t[m] == s@[start + m]);
                }
                lemma_no_newline(t, 0);
                assert(t =~= cur@);
                assert(string_views(lines@.push(cur)) =~= string_views(lines@).push(cur@));
            }
            lines.push(cur);
            assert(split_lines(s@) =~= string_views(lines@));
        } else {
            assert(s@.skip(start as int).len() == 0);
            assert(split_lines(s@) =~= string_views(lines@));
        }
        SourceFile { name: copy_string(&String::from_str(name)), lines }
    }

    /// Line `n` (1-based), with its newline; empty past the end of the file.
    pub fn snippet_line(&self, n: u64) -> (r: String)
        ensures
            r@ == line_at(self.lines_view(), n as int),
    {
        if n >= 1 && n <= self.lines.len() as u64 {
            copy_string(&self.lines[(n - 1) as usize])
        } else {
            String::new()
        }
    }

    /// A copy of the file.
    pub fn copy(&self) -> (r: SourceFile)
        ensures
            r.name@ == self.name@,
            r.lines_view() == self.lines_view(),
    {
        let lines = copy_strings(&self.lines);
        assert(string_views(lines@) =~= views_of(lines@));
        assert(string_views(self.lines@) =~= views_of(self.lines@));
        SourceFile { name: copy_string(&self.name), lines }
    }

    /// Number of lines.
    pub fn line_count(&self) -> (r: usize)
        ensures
            r == self.lines_view().len(),
    {
        self.lines.len()
    }
}

/// A line produced by [`split_lines`] is never empty.
pub proof fn lemma_split_lines_nonempty(s: Seq<char>)
    ensures
        forall|i: int| 0 <= i < split_lines(s).len() ==> (#[trigger] split_lines(s)[i]).len() > 0,
    decreases s.len(),
{
    if s.len() > 0 {
        let k = first_newline(s, 0) as int;
        if k < s.len() {
            lemma_split_lines_nonempty(s.skip(k + 1));
            let rest = split_lines(s.skip(k + 1));
            assert forall|i: int| 0 <= i < split_lines(s).len() implies (#[trigger] split_lines(s)[i]).len() > 0 by {
                if i > 0 {
                    assert(split_lines(s)[i] == rest[i - 1]);
                }
            }
        }
    }
}

} // verus!
