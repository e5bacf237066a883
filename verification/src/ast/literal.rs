//! Python errors raised while evaluating literals, and Python's `repr` of
//! strings and bytes.

use vstd::prelude::*;
use crate::text::{push_char, push_str, str_has_char};

verus! {

/// Error raised where Python would raise.
#[derive(Debug, Clone, PartialEq, Eq)]
pub struct PyErr(pub String);

impl PyErr {
    /// `TypeError: <msg>`.
    pub fn type_error(msg: &str) -> (r: PyErr)
        ensures
            r.0@ == "TypeError: "@ + msg@,
    {
        let mut s = String::new();
        push_str(&mut s, "TypeError: ");
        push_str(&mut s, msg);
        PyErr(s)
    }

    /// `KeyError: '<key>'`.
    pub fn key_error(key: &str) -> (r: PyErr)
        ensures
            r.0@ == "KeyError: '"@ + key@ + "'"@,
    {
        let mut s = String::new();
        push_str(&mut s, "KeyError: '");
        push_str(&mut s, key);
        push_str(&mut s, "'");
        PyErr(s)
    }

    /// `IndexError: <msg>`.
    pub fn index_error(msg: &str) -> (r: PyErr)
        ensures
            r.0@ == "IndexError: "@ + msg@,
    {
        let mut s = String::new();
        push_str(&mut s, "IndexError: ");
        push_str(&mut s, msg);
        PyErr(s)
    }

    /// `AttributeError: <msg>`.
    pub fn attribute_error(msg: &str) -> (r: PyErr)
        ensures
            r.0@ == "AttributeError: "@ + msg@,
    {
        let mut s = String::new();
        push_str(&mut s, "AttributeError: ");
        push_str(&mut s, msg);
        PyErr(s)
    }
}

/// Whether `str.isprintable()` holds of the code point `u`: everything but
/// the control, format, separator, surrogate and private-use characters
/// listed here.
pub open spec fn printable(u: u32) -> bool {
    !(u < 0x20 || (0x7f <= u && u <= 0xa0) || u == 0xad || (0x600 <= u && u <= 0x605) || u == 0x61c
        || u == 0x6dd || u == 0x70f || (0x890 <= u && u <= 0x891) || u == 0x8e2 || u == 0x1680
        || u == 0x180e || (0x2000 <= u && u <= 0x200f) || (0x2028 <= u && u <= 0x202f) || (0x205f
        <= u && u <= 0x2064) || (0x2066 <= u && u <= 0x206f) || u == 0x3000 || (0xd800 <= u && u
        <= 0xf8ff) || u == 0xfeff || (0xfff9 <= u && u <= 0xfffb) || u == 0x110bd || u == 0x110cd
        || (0x13430 <= u && u <= 0x1343f) || (0x1bca0 <= u && u <= 0x1bca3) || (0x1d173 <= u && u
        <= 0x1d17a) || u == 0xe0001 || (0xe0020 <= u && u <= 0xe007f) || (0xf0000 <= u && u
        <= 0x10ffff))
}

/// Whether Python's `str.isprintable()` considers `c` printable.
pub fn is_printable(c: char) -> (r: bool)
    ensures
        r == printable(c as u32),
{
    let u = c as u32;
    !(u < 0x20 || (0x7f <= u && u <= 0xa0) || u == 0xad || (0x600 <= u && u <= 0x605) || u == 0x61c
        || u == 0x6dd || u == 0x70f || (0x890 <= u && u <= 0x891) || u == 0x8e2 || u == 0x1680
        || u == 0x180e || (0x2000 <= u && u <= 0x200f) || (0x2028 <= u && u <= 0x202f) || (0x205f
        <= u && u <= 0x2064) || (0x2066 <= u && u <= 0x206f) || u == 0x3000 || (0xd800 <= u && u
        <= 0xf8ff) || u == 0xfeff || (0xfff9 <= u && u <= 0xfffb) || u == 0x110bd || u == 0x110cd
        || (0x13430 <= u && u <= 0x1343f) || (0x1bca0 <= u && u <= 0x1bca3) || (0x1d173 <= u && u
        <= 0x1d17a) || u == 0xe0001 || (0xe0020 <= u && u <= 0xe007f) || (0xf0000 <= u && u
        <= 0x10ffff))
}

/// Lower-case hexadecimal digit character of `d` (`0 <= d < 16`).
pub open spec fn hex_digit_char(d: nat) -> char {
    if d < 10 {
        (48 + d) as char
    } else {
        (87 + d) as char
    }
}

/// The `n` lower-case hexadecimal digits of `v`, most significant first.
pub open spec fn hex_text(v: nat, n: nat) -> Seq<char>
    decreases n,
{
    if n == 0 {
        Seq::empty()
    } else {
        hex_text(v / 16, (n - 1) as nat).push(hex_digit_char(v % 16))
    }
}

/// The quote `repr` uses: `"` when the text has a `'` and no `"`.
pub open spec fn repr_quote(has_single: bool, has_double: bool) -> char {
    if has_single && !has_double { '"' } else { '\'' }
}

/// How `repr(str)` writes one character, with quote `q`.
pub open spec fn repr_char(c: char, q: char) -> Seq<char> {
    if c == '\\' {
        seq!['\\', '\\']
    } else if c == '\n' {
        seq!['\\', 'n']
    } else if c == '\r' {
        seq!['\\', 'r']
    } else if c == '\t' {
        seq!['\\', 't']
    } else if c == q {
        seq!['\\', c]
    } else if printable(c as u32) {
        seq![c]
    } else if (c as u32) < 0x100 {
        seq!['\\', 'x'] + hex_text(c as nat, 2)
    } else if (c as u32) < 0x10000 {
        seq!['\\', 'u'] + hex_text(c as nat, 4)
    } else {
        seq!['\\', 'U'] + hex_text(c as nat, 8)
    }
}

/// The characters of `s` as `repr` writes them, with quote `q`.
pub open spec fn repr_body(s: Seq<char>, q: char) -> Seq<char>
    decreases s.len(),
{
    if s.len() == 0 {
        Seq::empty()
    } else {
        repr_body(s.drop_last(), q) + repr_char(s.last(), q)
    }
}

/// Python `repr(str)`.
pub open spec fn repr_str_spec(s: Seq<char>) -> Seq<char> {
    let q = repr_quote(s.contains('\''), s.contains('"'));
    seq![q] + repr_body(s, q) + seq![q]
}

fn hex_char_of(d: u32) -> (r: char)
    requires
        d < 16,
    ensures
        r == hex_digit_char(d as nat),
{
    if d < 10 {
        ((48 + d) as u8) as char
    } else {
        ((87 + d) as u8) as char
    }
}

fn push_hex_text(s: &mut String, v: u32, n: usize)
    requires
        n <= 8,
    ensures
        final(s)@ == old(s)@ + hex_text(v as nat, n as nat),
    decreases n,
{
    if n > 0 {
        push_hex_text(s, v / 16, n - 1);
        push_char(s, hex_char_of(v % 16));
        assert(hex_text(v as nat, n as nat) =~= hex_text((v / 16) as nat, (n - 1) as nat).push(
            hex_digit_char((v % 16) as nat),
        ));
    }
}

/// Python `repr(str)`.
pub fn repr_str(s: &str) -> (r: String)
    ensures
        r@ == repr_str_spec(s@),
{
    let q = if str_has_char(s, '\'') && !str_has_char(s, '"') { '"' } else { '\'' };
    let n = s.unicode_len();
    let mut out = String::new();
    push_char(&mut out, q);
    let mut i: usize = 0;
    while i < n
        invariant
            n == s@.len(),
            i <= n,
            q == repr_quote(s@.contains('\''), s@.contains('"')),
            out@ =~= seq![q] + repr_body(s@.subrange(0, i as int), q),
        decreases n - i,
    {
        let c = s.get_char(i);
        let ghost before = out@;
        if c == '\\' {
            push_str(&mut out, "\\\\");
            proof { reveal_strlit("\\\\"); }
        } else if c == '\n' {
            push_str(&mut out, "\\n");
            proof { reveal_strlit("\\n"); }
        } else if c == '\r' {
            push_str(&mut out, "\\r");
            proof { reveal_strlit("\\r"); }
        } else if c == '\t' {
            push_str(&mut out, "\\t");
            proof { reveal_strlit("\\t"); }
        } else if c == q {
            push_char(&mut out, '\\');
            push_char(&mut out, c);
        } else if is_printable(c) {
            push_char(&mut out, c);
        } else {
            let u = c as u32;
            push_char(&mut out, '\\');
            if u < 0x100 {
                push_char(&mut out, 'x');
                push_hex_text(&mut out, u, 2);
            } else if u < 0x10000 {
                push_char(&mut out, 'u');
                push_hex_text(&mut out, u, 4);
            } else {
                push_char(&mut out, 'U');
                push_hex_text(&mut out, u, 8);
            }
        }
        proof {
            let t = s@.subrange(0, i + 1);
            assert(t.drop_last() =~= s@.subrange(0, i as int));
            assert(t.last() == c);
            assert(out@ =~= before + repr_char(c, q));
        }
        i = i + 1;
    }
    assert(s@.subrange(0, n as int) =~= s@);
    push_char(&mut out, q);
    out
}

/// How `repr(bytes)` writes one byte, with quote `q`.
pub open spec fn repr_byte(c: u8, q: u8) -> Seq<char> {
    if c == 92 {
        seq!['\\', '\\']
    } else if c == 10 {
        seq!['\\', 'n']
    } else if c == 13 {
        seq!['\\', 'r']
    } else if c == 9 {
        seq!['\\', 't']
    } else if c == q {
        seq!['\\', c as char]
    } else if 0x20 <= c && c <= 0x7e {
        seq![c as char]
    } else {
        seq!['\\', 'x'] + hex_text(c as nat, 2)
    }
}

/// The bytes of `b` as `repr` writes them, with quote `q`.
pub open spec fn repr_bytes_body(b: Seq<u8>, q: u8) -> Seq<char>
    decreases b.len(),
{
    if b.len() == 0 {
        Seq::empty()
    } else {
        repr_bytes_body(b.drop_last(), q) + repr_byte(b.last(), q)
    }
}

/// Python `repr(bytes)`.
pub open spec fn repr_bytes_spec(b: Seq<u8>) -> Seq<char> {
    let q: u8 = if b.contains(39u8) && !b.contains(34u8) { 34 } else { 39 };
    seq!['b', q as char] + repr_bytes_body(b, q) + seq![q as char]
}

fn bytes_have(b: &[u8], x: u8) -> (r: bool)
    ensures
        r == b@.contains(x),
{
    let mut i: usize = 0;
    while i < b.len()
        invariant
            i <= b@.len(),
            forall|j: int| 0 <= j < i ==> b@[j] != x,
        decreases b@.len() - i,
    {
        if b[i] == x {
            return true;
        }
        i = i + 1;
    }
    false
}

/// Python `repr(bytes)`.
pub fn repr_bytes(b: &[u8]) -> (r: String)
    ensures
        r@ == repr_bytes_spec(b@),
{
    let q: u8 = if bytes_have(b, 39) && !bytes_have(b, 34) { 34 } else { 39 };
    let mut out = String::new();
    push_char(&mut out, 'b');
    push_char(&mut out, q as char);
    let mut i: usize = 0;
    while i < b.len()
        invariant
            i <= b@.len(),
            q == (if b@.contains(39u8) && !b@.contains(34u8) { 34u8 } else { 39u8 }),
            out@ =~= seq!['b', q as char] + repr_bytes_body(b@.subrange(0, i as int), q),
        decreases b@.len() - i,
    {
        let c = b[i];
        let ghost before = out@;
        if c == 92 {
            push_char(&mut out, '\\');
            push_char(&mut out, '\\');
        } else if c == 10 {
            push_char(&mut out, '\\');
            push_char(&mut out, 'n');
        } else if c == 13 {
            push_char(&mut out, '\\');
            push_char(&mut out, 'r');
        } else if c == 9 {
            push_char(&mut out, '\\');
            push_char(&mut out, 't');
        } else if c == q {
            push_char(&mut out, '\\');
            push_char(&mut out, c as char);
        } else if 0x20 <= c && c <= 0x7e {
            push_char(&mut out, c as char);
        } else {
            push_char(&mut out, '\\');
            push_char(&mut out, 'x');
            push_hex_text(&mut out, c as u32, 2);
        }
        proof {
            let t = b@.subrange(0, i + 1);
            assert(t.drop_last() =~= b@.subrange(0, i as int));
            assert(t.last() == c);
            assert(out@ =~= before + repr_byte(c, q));
        }
        i = i + 1;
    }
    assert(b@.subrange(0, b@.len() as int) =~= b@);
    push_char(&mut out, q as char);
    out
}

} // verus!
