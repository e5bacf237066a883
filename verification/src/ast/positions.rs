//! CPython-compatible positions: the position record and the byte-level
//! rules CPython uses where its node ranges differ from the syntax tree's.

use vstd::prelude::*;
use vstd::string::StringSliceAdditionalSpecFns;

verus! {

/// `lineno`, `col_offset`, `end_lineno`, `end_col_offset` (lines 1-based,
/// columns in UTF-8 bytes).
#[derive(Debug, Clone, Copy, PartialEq, Eq, Structural)]
pub struct Pos {
    pub lineno: u32,
    pub col_offset: u32,
    pub end_lineno: u32,
    pub end_col_offset: u32,
}

/// Blank bytes skipped between a decorator and its `def` / `class`.
pub open spec fn is_gap_byte(b: u8) -> bool {
    b == 32 || b == 9 || b == 10 || b == 13 || b == 12
}

/// End of the comment starting at `i`: the next line break or the end.
pub open spec fn comment_end(b: Seq<u8>, i: int) -> int
    decreases b.len() - i,
{
    if i < 0 || i >= b.len() || b[i] == 10 || b[i] == 13 {
        i
    } else {
        comment_end(b, i + 1)
    }
}

/// The first significant byte at or after `i`: whitespace, comments, line
/// continuations and line breaks are skipped.
pub open spec fn significant_from(b: Seq<u8>, i: int) -> int
    decreases b.len() - i,
{
    if i < 0 || i >= b.len() {
        i
    } else if is_gap_byte(b[i]) || b[i] == 92 {
        significant_from(b, i + 1)
    } else if b[i] == 35 {
        let e = comment_end(b, i + 1);
        if i < e <= b.len() { significant_from(b, e) } else { i }
    } else {
        i
    }
}

proof fn lemma_comment_end(b: Seq<u8>, i: int)
    requires
        0 <= i <= b.len(),
    ensures
        i <= comment_end(b, i) <= b.len(),
    decreases b.len() - i,
{
    if i < b.len() && b[i] != 10 && b[i] != 13 {
        lemma_comment_end(b, i + 1);
    }
}

/// Offset of the first significant byte at or after `from`, skipping
/// whitespace, comments, line continuations and line breaks (where the
/// keyword of a decorated definition starts).
pub fn keyword_start_after(text: &str, from: usize) -> (r: usize)
    ensures
        r == significant_from(text.spec_bytes(), from as int),
{
    let b = text.as_bytes();
    let n = b.len();
    let mut i = from;
    loop
        invariant
            n == b@.len(),
            b@ == text.spec_bytes(),
            from <= i,
            significant_from(b@, from as int) == significant_from(b@, i as int),
        decreases n - i + (if i <= n { 0int } else { 1int }),
    {
        if i >= n {
            return i;
        }
        let c = b[i];
        if c == 32 || c == 9 || c == 10 || c == 13 || c == 12 || c == 92 {
            i = i + 1;
        } else if c == 35 {
            let mut j = i + 1;
            while j < n && b[j] != 10 && b[j] != 13
                invariant
                    n == b@.len(),
                    i < j <= n,
                    comment_end(b@, i + 1) == comment_end(b@, j as int),
                decreases n - j,
            {
                j = j + 1;
            }
            proof {
                lemma_comment_end(b@, i + 1);
            }
            i = j;
        } else {
            return i;
        }
    }
}

/// The start of a `*args` / `**kwargs` parameter name: past the stars and
/// the blanks after them (CPython's `arg` range excludes them).
pub open spec fn vararg_name_start(b: Seq<u8>, s: int) -> int {
    if 0 <= s < b.len() && b[s] == 42 {
        skip_blanks(b, skip_stars(b, s))
    } else {
        s
    }
}

/// Past the `*` bytes at `s`.
pub open spec fn skip_stars(b: Seq<u8>, s: int) -> int
    decreases b.len() - s,
{
    if 0 <= s < b.len() && b[s] == 42 { skip_stars(b, s + 1) } else { s }
}

/// Past the blank, continuation and line-break bytes at `s`.
pub open spec fn skip_blanks(b: Seq<u8>, s: int) -> int
    decreases b.len() - s,
{
    if 0 <= s < b.len() && (b[s] == 32 || b[s] == 9 || b[s] == 12 || b[s] == 92 || b[s] == 10 || b[s] == 13) {
        skip_blanks(b, s + 1)
    } else {
        s
    }
}

/// Start offset of a parameter whose raw range starts at `start`.
pub fn vararg_start(text: &str, start: usize) -> (r: usize)
    ensures
        r == vararg_name_start(text.spec_bytes(), start as int),
{
    let b = text.as_bytes();
    let n = b.len();
    if start >= n || b[start] != 42 {
        return start;
    }
    let mut s = start;
    while s < n && b[s] == 42
        invariant
            n == b@.len(),
            start <= s <= n,
            skip_stars(b@, start as int) == skip_stars(b@, s as int),
        decreases n - s,
    {
        s = s + 1;
    }
    while s < n && (b[s] == 32 || b[s] == 9 || b[s] == 12 || b[s] == 92 || b[s] == 10 || b[s] == 13)
        invariant
            n == b@.len(),
            start <= s <= n,
            skip_blanks(b@, skip_stars(b@, start as int)) == skip_blanks(b@, s as int),
        decreases n - s,
    {
        s = s + 1;
    }
    s
}

} // verus!
