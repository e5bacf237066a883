//! The escaping of `xml.etree.ElementTree` when it writes a document:
//! text escapes `&`, `<` and `>`; attribute values escape `"`, carriage
//! return, line feed and tab as well.

use vstd::prelude::*;
use crate::text::{push_char, push_str};

verus! {

/// How one character is written in text (`attrib` false) or in an
/// attribute value (`attrib` true).
pub open spec fn escaped_char(c: char, attrib: bool) -> Seq<char> {
    if c == '&' {
        "&amp;"@
    } else if c == '<' {
        "&lt;"@
    } else if c == '>' {
        "&gt;"@
    } else if attrib && c == '"' {
        "&quot;"@
    } else if attrib && c == '\r' {
        "&#13;"@
    } else if attrib && c == '\n' {
        "&#10;"@
    } else if attrib && c == '\t' {
        "&#09;"@
    } else {
        seq![c]
    }
}

/// How a string is written, character by character.
pub open spec fn escaped(s: Seq<char>, attrib: bool) -> Seq<char>
    decreases s.len(),
{
    if s.len() == 0 {
        Seq::empty()
    } else {
        escaped(s.drop_last(), attrib) + escaped_char(s.last(), attrib)
    }
}

fn push_escaped_char(s: &mut String, c: char, attrib: bool)
    ensures
        final(s)@ == old(s)@ + escaped_char(c, attrib),
{
    if c == '&' {
        push_str(s, "&amp;");
        proof { reveal_strlit("&amp;"); }
    } else if c == '<' {
        push_str(s, "&lt;");
        proof { reveal_strlit("&lt;"); }
    } else if c == '>' {
        push_str(s, "&gt;");
        proof { reveal_strlit("&gt;"); }
    } else if attrib && c == '"' {
        push_str(s, "&quot;");
        proof { reveal_strlit("&quot;"); }
    } else if attrib && c == '\r' {
        push_str(s, "&#13;");
        proof { reveal_strlit("&#13;"); }
    } else if attrib && c == '\n' {
        push_str(s, "&#10;");
        proof { reveal_strlit("&#10;"); }
    } else if attrib && c == '\t' {
        push_str(s, "&#09;");
        proof { reveal_strlit("&#09;"); }
    } else {
        push_char(s, c);
    }
}

fn escape(t: &str, attrib: bool) -> (r: String)
    ensures
        r@ == escaped(t@, attrib),
{
    let n = t.unicode_len();
    let mut s = String::new();
    let mut i: usize = 0;
    while i < n
        invariant
            n == t@.len(),
            i <= n,
            s@ == escaped(t@.subrange(0, i as int), attrib),
        decreases n - i,
    {
        let ghost u = t@.subrange(0, i + 1);
        assert(u.drop_last() =~= t@.subrange(0, i as int));
        push_escaped_char(&mut s, t.get_char(i), attrib);
        i = i + 1;
    }
    assert(t@.subrange(0, n as int) =~= t@);
    s
}

/// `_escape_attrib(text)`.
pub fn escape_attrib(t: &str) -> (r: String)
    ensures
        r@ == escaped(t@, true),
{
    escape(t, true)
}

/// `_escape_cdata(text)`.
pub fn escape_cdata(t: &str) -> (r: String)
    ensures
        r@ == escaped(t@, false),
{
    escape(t, false)
}

} // verus!
