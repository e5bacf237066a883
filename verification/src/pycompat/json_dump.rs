//! Python's `json.dumps(value, sort_keys=True, indent=2)`: objects with
//! their keys sorted, two spaces of indent per level, and text escaped to
//! ASCII.

use vstd::prelude::*;
use crate::engine::json::{JsonNumber, JsonValue};
use crate::pycompat::keyed_sort::{lemma_sort_members, sort_by_key, sort_keyed};
use crate::engine::config::{int_text, push_int};
use crate::text::{decimal, push_char, push_decimal, push_str, to_owned_string};

verus! {

/// Whether `w` is `v` with the entries of each object sorted by key
/// (items with equal keys keep their order).
pub open spec fn sorted_json(v: JsonValue, w: JsonValue) -> bool
    decreases v,
{
    match v {
        JsonValue::Array(a) => w is Array && w->Array_0@.len() == a@.len() && forall|i: int|
            0 <= i < a@.len() ==> sorted_json(#[trigger] a@[i], w->Array_0@[i]),
        JsonValue::Object(e) => w is Object && exists|m: Seq<(String, JsonValue)>|
            #![trigger sort_keyed(m)]
            m.len() == e@.len() && w->Object_0@ == sort_keyed(m) && forall|i: int|
                0 <= i < e@.len() ==> #[trigger] m[i].0 == e@[i].0 && sorted_json(e@[i].1, m[i].1),
        _ => w == v,
    }
}

proof fn lemma_sorted_object(v: JsonValue, m: Seq<(String, JsonValue)>, w: JsonValue)
    requires
        v is Object,
        w is Object,
        m.len() == v->Object_0@.len(),
        w->Object_0@ == sort_keyed(m),
        forall|i: int| 0 <= i < m.len() ==> #[trigger] m[i].0 == v->Object_0@[i].0,
        forall|i: int| 0 <= i < m.len() ==> sorted_json(v->Object_0@[i].1, #[trigger] m[i].1),
    ensures
        sorted_json(v, w),
{
    assert forall|i: int| 0 <= i < m.len() implies #[trigger] m[i].0 == v->Object_0@[i].0 && sorted_json(
        v->Object_0@[i].1,
        m[i].1,
    ) by {
        assert(sorted_json(v->Object_0@[i].1, m[i].1));
    }
}

/// The value with the entries of each object sorted by key.
pub fn sort_keys(v: JsonValue) -> (w: JsonValue)
    ensures
        sorted_json(v, w),
    decreases v,
{
    let ghost gv = v;
    match v {
        JsonValue::Array(a) => {
            let ghost a0 = a@;
            let n = a.len();
            let mut rest = a;
            let mut out: Vec<JsonValue> = Vec::new();
            let mut k: usize = 0;
            while rest.len() > 0
                invariant
                    n == a0.len(),
                    k <= n,
                    gv == JsonValue::Array(a),
                    gv == v,
                    a0 == a@,
                    rest@ == a0.skip(k as int),
                    out@.len() == k,
                    forall|i: int| 0 <= i < k ==> sorted_json(#[trigger] a0[i], out@[i]),
                decreases rest@.len(),
            {
                let x = rest.remove(0);
                assert(x == a0[k as int]);
                assert(a0.skip(k as int).skip(1) =~= a0.skip(k + 1));
                proof {
                    assert(decreases_to!(gv => gv->Array_0));
                    assert(decreases_to!(gv->Array_0 => a0));
                    assert(decreases_to!(a0 => a0[k as int]));
                    assert(decreases_to!(gv => x));
                    assert(decreases_to!(v => x));
                }
                let y = sort_keys(x);
                out.push(y);
                k = k + 1;
            }
            assert(k == n);
            let w = JsonValue::Array(out);
            assert(w->Array_0@.len() == a0.len());
            assert(forall|i: int| 0 <= i < a0.len() ==> sorted_json(#[trigger] a0[i], w->Array_0@[i]));
            assert(gv->Array_0@ == a0);
            assert(sorted_json(gv, w));
            assert(gv == v);
            w
        },
        JsonValue::Object(e) => {
            let ghost e0 = e@;
            let n = e.len();
            let mut rest = e;
            let mut out: Vec<(String, JsonValue)> = Vec::new();
            let mut k: usize = 0;
            while rest.len() > 0
                invariant
                    n == e0.len(),
                    k <= n,
                    gv == JsonValue::Object(e),
                    gv == v,
                    e0 == e@,
                    rest@ == e0.skip(k as int),
                    out@.len() == k,
                    forall|i: int| 0 <= i < k ==> #[trigger] out@[i].0 == e0[i].0,
                    forall|i: int| 0 <= i < k ==> sorted_json(e0[i].1, #[trigger] out@[i].1),
                decreases rest@.len(),
            {
                let (key, x) = rest.remove(0);
                assert(x == e0[k as int].1);
                assert(e0.skip(k as int).skip(1) =~= e0.skip(k + 1));
                proof {
                    assert(decreases_to!(gv => gv->Object_0));
                    assert(decreases_to!(gv->Object_0 => e0));
                    assert(decreases_to!(e0 => e0[k as int]));
                    assert(decreases_to!(e0[k as int] => e0[k as int].1));
                    assert(decreases_to!(gv => x));
                    assert(decreases_to!(v => x));
                }
                let y = sort_keys(x);
                out.push((key, y));
                k = k + 1;
            }
            let ghost m = out@;
            let sorted = sort_by_key(out);
            let w = JsonValue::Object(sorted);
            assert(k == n);
            assert(w->Object_0@ == sort_keyed(m));
            assert(gv->Object_0@ == e0);
            proof {
                lemma_sorted_object(gv, m, w);
            }
            w
        },
        other => other,
    }
}

/// The lower-case hexadecimal digits.
pub open spec fn hex_digits() -> Seq<char> {
    seq!['0', '1', '2', '3', '4', '5', '6', '7', '8', '9', 'a', 'b', 'c', 'd', 'e', 'f']
}

/// Four lower-case hexadecimal digits of `n` (`n < 0x10000`).
pub open spec fn hex4(n: nat) -> Seq<char> {
    seq![
        hex_digits()[((n / 4096) % 16) as int],
        hex_digits()[((n / 256) % 16) as int],
        hex_digits()[((n / 16) % 16) as int],
        hex_digits()[(n % 16) as int],
    ]
}

/// A character of a JSON string escaped to ASCII: short escapes for
/// quotes, backslashes and five control characters, printable ASCII as it
/// is, any other character as `\uXXXX` (a surrogate pair above the basic
/// plane).
pub open spec fn json_char(c: char) -> Seq<char> {
    let n = c as u32 as nat;
    if c == '"' {
        seq!['\\', '"']
    } else if c == '\\' {
        seq!['\\', '\\']
    } else if c == '\n' {
        seq!['\\', 'n']
    } else if c == '\r' {
        seq!['\\', 'r']
    } else if c == '\t' {
        seq!['\\', 't']
    } else if n == 8 {
        seq!['\\', 'b']
    } else if n == 12 {
        seq!['\\', 'f']
    } else if 0x20 <= n < 0x7f {
        seq![c]
    } else if n < 0x10000 {
        seq!['\\', 'u'] + hex4(n)
    } else {
        seq!['\\', 'u'] + hex4(0xd800 + ((n - 0x10000) as nat) / 1024) + seq!['\\', 'u'] + hex4(
            0xdc00 + ((n - 0x10000) as nat) % 1024,
        )
    }
}

/// The escaped characters of a string.
pub open spec fn json_escaped(s: Seq<char>) -> Seq<char>
    decreases s.len(),
{
    if s.len() == 0 {
        Seq::empty()
    } else {
        json_escaped(s.drop_last()) + json_char(s.last())
    }
}

/// A JSON string: quoted, escaped to ASCII.
pub open spec fn json_str(s: Seq<char>) -> Seq<char> {
    seq!['"'] + json_escaped(s) + seq!['"']
}

/// The text of an integer.
pub open spec fn int_number_text(n: JsonNumber) -> Seq<char> {
    match n {
        JsonNumber::PosInt(u) => decimal(u as nat),
        JsonNumber::NegInt(i) => int_text(i),
        JsonNumber::Float(_) => Seq::empty(),
    }
}

/// Whether a value holds a float anywhere.
pub open spec fn has_float(v: JsonValue) -> bool
    decreases v,
{
    match v {
        JsonValue::Number(n) => n is Float,
        JsonValue::Array(a) => exists|i: int| 0 <= i < a@.len() && has_float(#[trigger] a@[i]),
        JsonValue::Object(e) => exists|i: int| 0 <= i < e@.len() && has_float(#[trigger] e@[i].1),
        _ => false,
    }
}

/// The text of `v` at indent `pad`: scalars as JSON writes them, a
/// non-empty list or object with each item on a line of its own, indented
/// two spaces more, separated by commas, and the closing bracket on a line
/// at `pad`.
pub open spec fn dump(v: JsonValue, pad: Seq<char>) -> Seq<char>
    decreases v, 0nat,
{
    match v {
        JsonValue::Null => "null"@,
        JsonValue::Bool(b) => if b { "true"@ } else { "false"@ },
        JsonValue::Number(n) => int_number_text(n),
        JsonValue::Str(s) => json_str(s@),
        JsonValue::Array(a) => if a@.len() == 0 {
            "[]"@
        } else {
            seq!['['] + dump_items(a@, pad + "  "@) + seq!['\n'] + pad + seq![']']
        },
        JsonValue::Object(e) => if e@.len() == 0 {
            "{}"@
        } else {
            seq!['{'] + dump_entries(e@, pad + "  "@) + seq!['\n'] + pad + seq!['}']
        },
    }
}

/// The items of a list, each on a line at `pad`, separated by commas.
pub open spec fn dump_items(s: Seq<JsonValue>, pad: Seq<char>) -> Seq<char>
    decreases s, 1nat,
{
    if s.len() == 0 {
        Seq::empty()
    } else {
        dump_items(s.drop_last(), pad) + (if s.len() > 1 { seq![','] } else { Seq::empty() }) + seq!['\n'] + pad
            + dump(s.last(), pad)
    }
}

/// The entries of an object, each as `"key": value` on a line at `pad`,
/// separated by commas.
pub open spec fn dump_entries(s: Seq<(String, JsonValue)>, pad: Seq<char>) -> Seq<char>
    decreases s, 1nat,
{
    if s.len() == 0 {
        Seq::empty()
    } else {
        dump_entries(s.drop_last(), pad) + (if s.len() > 1 { seq![','] } else { Seq::empty() }) + seq!['\n']
            + pad + json_str(s.last().0@) + ": "@ + dump(s.last().1, pad)
    }
}

fn hex_char(d: u32) -> (c: char)
    requires
        d < 16,
    ensures
        c == hex_digits()[d as int],
{
    let t = "0123456789abcdef";
    proof {
        reveal_strlit("0123456789abcdef");
        assert(t@ =~= hex_digits());
    }
    t.get_char(d as usize)
}

fn push_hex4(s: &mut String, n: u32)
    requires
        n < 0x10000,
    ensures
        final(s)@ == old(s)@ + hex4(n as nat),
{
    let ghost start = s@;
    push_char(s, hex_char((n / 4096) % 16));
    push_char(s, hex_char((n / 256) % 16));
    push_char(s, hex_char((n / 16) % 16));
    push_char(s, hex_char(n % 16));
    assert(s@ =~= start + hex4(n as nat));
}

fn push_escape(s: &mut String, e: char)
    ensures
        final(s)@ == old(s)@ + seq!['\\', e],
{
    let ghost start = s@;
    push_char(s, '\\');
    push_char(s, e);
    assert(s@ =~= start + seq!['\\', e]);
}

fn push_json_char(s: &mut String, c: char)
    ensures
        final(s)@ == old(s)@ + json_char(c),
{
    let ghost start = s@;
    let n = c as u32;
    if c == '"' {
        push_escape(s, '"');
    } else if c == '\\' {
        push_escape(s, '\\');
    } else if c == '\n' {
        push_escape(s, 'n');
    } else if c == '\r' {
        push_escape(s, 'r');
    } else if c == '\t' {
        push_escape(s, 't');
    } else if n == 8 {
        push_escape(s, 'b');
    } else if n == 12 {
        push_escape(s, 'f');
    } else if 0x20 <= n && n < 0x7f {
        push_char(s, c);
    } else if n < 0x10000 {
        push_escape(s, 'u');
        push_hex4(s, n);
    } else {
        let m = n - 0x10000;
        assert(m < 0x100000) by {
            assert(n <= 0x10FFFF) by {
                assert((c as u32) <= 0x10FFFF);
            }
        }
        push_escape(s, 'u');
        push_hex4(s, 0xd800 + m / 1024);
        push_escape(s, 'u');
        push_hex4(s, 0xdc00 + m % 1024);
    }
    assert(s@ =~= start + json_char(c));
}

/// Appends the JSON string of `t`.
pub fn push_json_str(s: &mut String, t: &str)
    ensures
        final(s)@ == old(s)@ + json_str(t@),
{
    let ghost start = s@;
    push_char(s, '"');
    let n = t.unicode_len();
    let mut i: usize = 0;
    while i < n
        invariant
            n == t@.len(),
            i <= n,
            s@ == start + seq!['"'] + json_escaped(t@.subrange(0, i as int)),
        decreases n - i,
    {
        let ghost before = s@;
        push_json_char(s, t.get_char(i));
        assert(t@.subrange(0, i + 1).drop_last() =~= t@.subrange(0, i as int));
        assert(s@ =~= start + seq!['"'] + json_escaped(t@.subrange(0, i + 1)));
        i = i + 1;
    }
    assert(t@.subrange(0, n as int) =~= t@);
    push_char(s, '"');
    assert(s@ =~= start + json_str(t@));
}

/// Appends the text of `v` at indent `pad`; false, leaving the text
/// unspecified, where `v` holds a float.
pub fn write_json(s: &mut String, v: &JsonValue, pad: &str) -> (ok: bool)
    ensures
        ok == !has_float(*v),
        ok ==> final(s)@ == old(s)@ + dump(*v, pad@),
    decreases *v,
{
    let ghost start = s@;
    match v {
        JsonValue::Null => {
            push_str(s, "null");
            true
        },
        JsonValue::Bool(b) => {
            if *b {
                push_str(s, "true");
            } else {
                push_str(s, "false");
            }
            true
        },
        JsonValue::Number(JsonNumber::PosInt(u)) => {
            push_decimal(s, *u);
            true
        },
        JsonValue::Number(JsonNumber::NegInt(i)) => {
            push_int(s, *i);
            true
        },
        JsonValue::Number(JsonNumber::Float(_)) => false,
        JsonValue::Str(t) => {
            push_json_str(s, t.as_str());
            true
        },
        JsonValue::Array(a) => {
            if a.len() == 0 {
                push_str(s, "[]");
                return true;
            }
            let mut inner = to_owned_string(pad);
            push_str(&mut inner, "  ");
            push_char(s, '[');
            let ghost head = s@;
            let mut i: usize = 0;
            while i < a.len()
                invariant
                    *v == JsonValue::Array(*a),
                    i <= a@.len(),
                    inner@ == pad@ + "  "@,
                    forall|j: int| 0 <= j < i ==> !has_float(#[trigger] a@[j]),
                    s@ == head + dump_items(a@.subrange(0, i as int), inner@),
                decreases a@.len() - i,
            {
                if i > 0 {
                    push_char(s, ',');
                }
                push_char(s, '\n');
                push_str(s, inner.as_str());
                proof {
                    assert(decreases_to!(*v => (*v)->Array_0));
                    assert(decreases_to!((*v)->Array_0 => a@));
                    assert(decreases_to!(a@ => a@[i as int]));
                }
                let ok = write_json(s, &a[i], inner.as_str());
                if !ok {
                    return false;
                }
                assert(a@.subrange(0, i + 1).drop_last() =~= a@.subrange(0, i as int));
                assert(s@ =~= head + dump_items(a@.subrange(0, i + 1), inner@));
                i = i + 1;
            }
            assert(a@.subrange(0, a@.len() as int) =~= a@);
            push_char(s, '\n');
            push_str(s, pad);
            push_char(s, ']');
            assert(s@ =~= start + dump(*v, pad@));
            true
        },
        JsonValue::Object(e) => {
            if e.len() == 0 {
                push_str(s, "{}");
                return true;
            }
            let mut inner = to_owned_string(pad);
            push_str(&mut inner, "  ");
            push_char(s, '{');
            let ghost head = s@;
            let mut i: usize = 0;
            while i < e.len()
                invariant
                    *v == JsonValue::Object(*e),
                    i <= e@.len(),
                    inner@ == pad@ + "  "@,
                    forall|j: int| 0 <= j < i ==> !has_float(#[trigger] e@[j].1),
                    s@ == head + dump_entries(e@.subrange(0, i as int), inner@),
                decreases e@.len() - i,
            {
                if i > 0 {
                    push_char(s, ',');
                }
                push_char(s, '\n');
                push_str(s, inner.as_str());
                push_json_str(s, e[i].0.as_str());
                push_str(s, ": ");
                proof {
                    assert(decreases_to!(*v => (*v)->Object_0));
                    assert(decreases_to!((*v)->Object_0 => e@));
                    assert(decreases_to!(e@ => e@[i as int]));
                    assert(decreases_to!(e@[i as int] => e@[i as int].1));
                }
                let ok = write_json(s, &e[i].1, inner.as_str());
                if !ok {
                    return false;
                }
                assert(e@.subrange(0, i + 1).drop_last() =~= e@.subrange(0, i as int));
                assert(s@ =~= head + dump_entries(e@.subrange(0, i + 1), inner@));
                i = i + 1;
            }
            assert(e@.subrange(0, e@.len() as int) =~= e@);
            push_char(s, '\n');
            push_str(s, pad);
            push_char(s, '}');
            assert(s@ =~= start + dump(*v, pad@));
            true
        },
    }
}

/// `json.dumps(v, sort_keys=True, indent=2)` of a value without floats
/// (`None` where it holds one).
pub fn dumps(v: JsonValue) -> (r: Option<String>)
    ensures
        exists|w: JsonValue| #![trigger sorted_json(v, w)]
            sorted_json(v, w) && match r {
                Some(t) => !has_float(w) && t@ == dump(w, Seq::empty()),
                None => has_float(w),
            },
{
    let w = sort_keys(v);
    let mut s = String::new();
    let ok = write_json(&mut s, &w, "");
    proof {
        reveal_strlit("");
        assert(""@ =~= Seq::<char>::empty());
    }
    let r = if ok {
        Some(s)
    } else {
        None
    };
    assert(sorted_json(v, w) && match r {
        Some(t) => !has_float(w) && t@ == dump(w, Seq::empty()),
        None => has_float(w),
    });
    r
}

/// Sorting the keys of a value without floats gives one without floats.
pub proof fn lemma_sorted_no_float(v: JsonValue, w: JsonValue)
    requires
        sorted_json(v, w),
        !has_float(v),
    ensures
        !has_float(w),
    decreases v,
{
    match v {
        JsonValue::Array(a) => {
            assert forall|i: int| 0 <= i < w->Array_0@.len() implies !has_float(#[trigger] w->Array_0@[i]) by {
                assert(sorted_json(a@[i], w->Array_0@[i]));
                assert(!has_float(a@[i]));
                lemma_sorted_no_float(a@[i], w->Array_0@[i]);
            }
        },
        JsonValue::Object(e) => {
            assert(exists|m: Seq<(String, JsonValue)>| #![trigger sort_keyed(m)]
                m.len() == e@.len() && w->Object_0@ == sort_keyed(m) && forall|i: int|
                    0 <= i < e@.len() ==> #[trigger] m[i].0 == e@[i].0 && sorted_json(e@[i].1, m[i].1));
            let m = choose|m: Seq<(String, JsonValue)>| #![trigger sort_keyed(m)]
                m.len() == e@.len() && w->Object_0@ == sort_keyed(m) && forall|i: int|
                    0 <= i < e@.len() ==> #[trigger] m[i].0 == e@[i].0 && sorted_json(e@[i].1, m[i].1);
            lemma_sort_members(m);
            assert forall|i: int| 0 <= i < m.len() implies !has_float(#[trigger] m[i].1) by {
                assert(m[i].0 == e@[i].0);
                assert(sorted_json(e@[i].1, m[i].1));
                assert(!has_float(e@[i].1));
                lemma_sorted_no_float(e@[i].1, m[i].1);
            }
            assert forall|j: int| 0 <= j < w->Object_0@.len() implies !has_float(#[trigger] w->Object_0@[j].1) by {
                let i = choose|i: int| 0 <= i < m.len() && sort_keyed(m)[j] == m[i];
                assert(!has_float(m[i].1));
            }
        },
        _ => {},
    }
}

} // verus!
