//! JSON documents as the engine reads and writes them: baseline reports
//! are read into [`BaselineIssue`]s; issues, weakness ids, line ranges and
//! metrics are written as JSON values.
//!
//! Parsing and printing JSON text is the caller's part (`serde_json`); it
//! converts between its values and [`JsonValue`].

use vstd::prelude::*;
use crate::engine::issue::{BaselineError, BaselineIssue, Cwe};
use crate::pycompat::double::{is_nan, sign_bit, exponent_field, mantissa_field, two_pow, lemma_two_pow_128, lemma_two_pow_mono};
use crate::text::{copy_string, int_text_value, parse_u32, push_str, str_eq, to_owned_string};

verus! {

/// A JSON number, as `serde_json` holds it.
#[derive(Debug)]
pub enum JsonNumber {
    /// A non-negative integer.
    PosInt(u64),
    /// A negative integer.
    NegInt(i64),
    /// Any other number, by the bits of its double.
    Float(u64),
}

/// A JSON value; an object's entries keep their order and have distinct
/// keys.
#[derive(Debug)]
pub enum JsonValue {
    Null,
    Bool(bool),
    Number(JsonNumber),
    Str(String),
    Array(Vec<JsonValue>),
    Object(Vec<(String, JsonValue)>),
}

/// The value of `key` in the entries of an object (the first entry with
/// that key).
pub open spec fn entry_of(entries: Seq<(String, JsonValue)>, key: Seq<char>) -> Option<JsonValue>
    decreases entries.len(),
{
    if entries.len() == 0 {
        None
    } else if entries[0].0@ == key {
        Some(entries[0].1)
    } else {
        entry_of(entries.skip(1), key)
    }
}

/// `obj.get(key)`.
pub fn get_entry<'a>(entries: &'a Vec<(String, JsonValue)>, key: &str) -> (r: Option<&'a JsonValue>)
    ensures
        match entry_of(entries@, key@) {
            Some(v) => r == Some(&v),
            None => r is None,
        },
{
    let mut i: usize = 0;
    assert(entries@.skip(0) =~= entries@);
    while i < entries.len()
        invariant
            i <= entries@.len(),
            entry_of(entries@, key@) == entry_of(entries@.skip(i as int), key@),
        decreases entries@.len() - i,
    {
        assert(entries@.skip(i as int).skip(1) =~= entries@.skip(i + 1));
        if str_eq(entries[i].0.as_str(), key) {
            return Some(&entries[i].1);
        }
        i = i + 1;
    }
    None
}

/// Whether two JSON values are the same value.
pub open spec fn same_json(a: JsonValue, b: JsonValue) -> bool
    decreases a, 0nat,
{
    match (a, b) {
        (JsonValue::Null, JsonValue::Null) => true,
        (JsonValue::Bool(x), JsonValue::Bool(y)) => x == y,
        (JsonValue::Number(x), JsonValue::Number(y)) => x == y,
        (JsonValue::Str(x), JsonValue::Str(y)) => x@ == y@,
        (JsonValue::Array(x), JsonValue::Array(y)) => x@.len() == y@.len() && same_items(x@, y@),
        (JsonValue::Object(x), JsonValue::Object(y)) => x@.len() == y@.len() && same_entries(x@, y@),
        _ => false,
    }
}

/// Whether the values of `a` are the same as those of `b` at the same
/// positions.
pub open spec fn same_items(a: Seq<JsonValue>, b: Seq<JsonValue>) -> bool
    decreases a, 1nat,
{
    if a.len() == 0 {
        true
    } else {
        same_items(a.drop_last(), b) && a.len() <= b.len() && same_json(a.last(), b[a.len() - 1])
    }
}

/// Whether the entries of `a` are the same as those of `b` at the same
/// positions.
pub open spec fn same_entries(a: Seq<(String, JsonValue)>, b: Seq<(String, JsonValue)>) -> bool
    decreases a, 1nat,
{
    if a.len() == 0 {
        true
    } else {
        same_entries(a.drop_last(), b) && a.len() <= b.len() && a.last().0@ == b[a.len() - 1].0@
            && same_json(a.last().1, b[a.len() - 1].1)
    }
}

proof fn lemma_same_items_push(a: Seq<JsonValue>, b: Seq<JsonValue>, x: JsonValue)
    requires
        same_items(a, b),
        a.len() <= b.len(),
    ensures
        same_items(a, b.push(x)),
    decreases a.len(),
{
    if a.len() > 0 {
        lemma_same_items_push(a.drop_last(), b, x);
        assert(b.push(x)[a.len() - 1] == b[a.len() - 1]);
    }
}

proof fn lemma_same_entries_push(a: Seq<(String, JsonValue)>, b: Seq<(String, JsonValue)>, x: (String, JsonValue))
    requires
        same_entries(a, b),
        a.len() <= b.len(),
    ensures
        same_entries(a, b.push(x)),
    decreases a.len(),
{
    if a.len() > 0 {
        lemma_same_entries_push(a.drop_last(), b, x);
        assert(b.push(x)[a.len() - 1] == b[a.len() - 1]);
    }
}

/// A copy of a JSON value.
pub fn copy_json(v: &JsonValue) -> (r: JsonValue)
    ensures
        same_json(*v, r),
    decreases v,
{
    match v {
        JsonValue::Null => JsonValue::Null,
        JsonValue::Bool(b) => JsonValue::Bool(*b),
        JsonValue::Number(n) => JsonValue::Number(
            match n {
                JsonNumber::PosInt(u) => JsonNumber::PosInt(*u),
                JsonNumber::NegInt(i) => JsonNumber::NegInt(*i),
                JsonNumber::Float(b) => JsonNumber::Float(*b),
            },
        ),
        JsonValue::Str(s) => JsonValue::Str(copy_string(s)),
        JsonValue::Array(items) => {
            let mut out: Vec<JsonValue> = Vec::new();
            let mut i: usize = 0;
            while i < items.len()
                invariant
                    *v == JsonValue::Array(*items),
                    i <= items@.len(),
                    out@.len() == i,
                    same_items(items@.subrange(0, i as int), out@),
                decreases items@.len() - i,
            {
                proof {
                    assert(decreases_to!(*v => (*v)->Array_0));
                    assert(decreases_to!(*items => items@));
                    assert(decreases_to!(items@ => items@[i as int]));
                }
                let c = copy_json(&items[i]);
                let ghost before = out@;
                out.push(c);
                proof {
                    let u = items@.subrange(0, i + 1);
                    assert(u.drop_last() =~= items@.subrange(0, i as int));
                    lemma_same_items_push(items@.subrange(0, i as int), before, c);
                    assert(out@ == before.push(c));
                    assert(out@[i as int] == c);
                }
                i = i + 1;
            }
            assert(items@.subrange(0, items@.len() as int) =~= items@);
            JsonValue::Array(out)
        },
        JsonValue::Object(entries) => {
            let mut out: Vec<(String, JsonValue)> = Vec::new();
            let mut i: usize = 0;
            while i < entries.len()
                invariant
                    *v == JsonValue::Object(*entries),
                    i <= entries@.len(),
                    out@.len() == i,
                    same_entries(entries@.subrange(0, i as int), out@),
                decreases entries@.len() - i,
            {
                proof {
                    assert(decreases_to!(*v => (*v)->Object_0));
                    assert(decreases_to!(*entries => entries@));
                    assert(decreases_to!(entries@ => entries@[i as int]));
                    assert(decreases_to!(entries@[i as int] => entries@[i as int].1));
                }
                let c = copy_json(&entries[i].1);
                let k = copy_string(&entries[i].0);
                let ghost before = out@;
                let ghost pair = (k, c);
                out.push((k, c));
                proof {
                    let u = entries@.subrange(0, i + 1);
                    assert(u.drop_last() =~= entries@.subrange(0, i as int));
                    lemma_same_entries_push(entries@.subrange(0, i as int), before, pair);
                    assert(out@ == before.push(pair));
                }
                i = i + 1;
            }
            assert(entries@.subrange(0, entries@.len() as int) =~= entries@);
            JsonValue::Object(out)
        },
    }
}

/// Whether `c` is white space for `str::trim` (Unicode `White_Space`).
pub open spec fn is_white(c: char) -> bool {
    let u = c as u32;
    (9 <= u <= 13) || u == 32 || u == 0x85 || u == 0xa0 || u == 0x1680 || (0x2000 <= u <= 0x200a) || u == 0x2028
        || u == 0x2029 || u == 0x202f || u == 0x205f || u == 0x3000
}

/// `s.trim()`: white space taken off both ends.
pub open spec fn trimmed(s: Seq<char>) -> Seq<char>
    decreases s.len(),
{
    if s.len() > 0 && is_white(s[0]) {
        trimmed(s.skip(1))
    } else if s.len() > 0 && is_white(s.last()) {
        trimmed(s.drop_last())
    } else {
        s
    }
}

fn white(c: char) -> (r: bool)
    ensures
        r == is_white(c),
{
    let u = c as u32;
    (9 <= u && u <= 13) || u == 32 || u == 0x85 || u == 0xa0 || u == 0x1680 || (0x2000 <= u && u <= 0x200a)
        || u == 0x2028 || u == 0x2029 || u == 0x202f || u == 0x205f || u == 0x3000
}

/// `s.trim()`.
pub fn trim(s: &str) -> (r: String)
    ensures
        r@ == trimmed(s@),
{
    let n = s.unicode_len();
    let mut a: usize = 0;
    let mut b: usize = n;
    assert(s@.subrange(0, n as int) =~= s@);
    while a < b && (white(s.get_char(a)) || white(s.get_char(b - 1)))
        invariant
            n == s@.len(),
            a <= b <= n,
            trimmed(s@) == trimmed(s@.subrange(a as int, b as int)),
        decreases b - a,
    {
        let ghost t = s@.subrange(a as int, b as int);
        if white(s.get_char(a)) {
            assert(t[0] == s@[a as int]);
            assert(t.skip(1) =~= s@.subrange(a + 1, b as int));
            a = a + 1;
        } else {
            assert(t[0] == s@[a as int]);
            assert(t.last() == s@[b - 1]);
            assert(t.drop_last() =~= s@.subrange(a as int, b - 1));
            b = b - 1;
        }
    }
    let ghost t = s@.subrange(a as int, b as int);
    proof {
        if t.len() > 0 {
            assert(t[0] == s@[a as int]);
            assert(t.last() == s@[b - 1]);
        }
    }
    s.substring_char(a, b).to_string()
}

/// `f.trunc().max(0.0) as u32` for the double with bits `bits`: 0 for a
/// NaN or a negative number, `u32::MAX` at and above `2^32`, else the
/// whole part.
pub open spec fn clamped_whole(bits: u64) -> u32 {
    let e = exponent_field(bits);
    let m = two_pow(52) + mantissa_field(bits);
    if is_nan(bits) || sign_bit(bits) || e == 0 {
        0
    } else if e >= 1075 + 32 - 52 {
        u32::MAX
    } else {
        let w = m / two_pow((1075 - e) as nat);
        if w > u32::MAX { u32::MAX } else { w as u32 }
    }
}

fn clamp_whole(bits: u64) -> (r: u32)
    ensures
        r == clamped_whole(bits),
{
    proof {
        lemma_two_pow_128();
    }
    let e = (bits / 4503599627370496) % 2048;
    let m = bits % 4503599627370496;
    if (e == 2047 && m != 0) || bits >= 9223372036854775808 || e == 0 {
        return 0;
    }
    if e >= 1055 {
        return u32::MAX;
    }
    let sh = 1075 - e;
    let mut d: u64 = 1;
    let mut k: u64 = 0;
    while k < sh
        invariant
            k <= sh <= 1075,
            sh >= 21,
            d == if k <= 63 { two_pow(k as nat) } else { 0 },
        decreases sh - k,
    {
        if k < 63 {
            proof {
                lemma_two_pow_mono((k + 1) as nat, 63);
                lemma_two_pow_128();
                assert(two_pow((k + 1) as nat) == 2 * two_pow(k as nat));
            }
            d = d * 2;
        } else {
            d = 0;
        }
        k = k + 1;
    }
    let m53: u64 = 4503599627370496 + m;
    if sh > 63 {
        proof {
            lemma_two_pow_mono(63, sh as nat);
            vstd::arithmetic::div_mod::lemma_basic_div(m53 as int, two_pow(sh as nat) as int);
        }
        return 0;
    }
    proof {
        lemma_two_pow_mono(0, sh as nat);
    }
    let w = m53 / d;
    if w > 4294967295 { u32::MAX } else { w as u32 }
}

/// `int(data["id"])`: the weakness id a baseline issue's `issue_cwe`
/// object gives, not set when it has no `id`.
pub open spec fn cwe_of(data: JsonValue) -> Result<u32, Seq<char>> {
    match data {
        JsonValue::Object(entries) => match entry_of(entries@, "id"@) {
            None => Ok(0u32),
            Some(JsonValue::Number(JsonNumber::PosInt(u))) => Ok((u % 4294967296) as u32),
            Some(JsonValue::Number(JsonNumber::NegInt(_))) => Ok(0u32),
            Some(JsonValue::Number(JsonNumber::Float(b))) => Ok(clamped_whole(b)),
            Some(JsonValue::Str(s)) => match int_text_value(trimmed(s@), false) {
                Some(v) => if 0 <= v <= u32::MAX { Ok(v as u32) } else {
                    Err("invalid literal for int() with base 10: '"@ + s@ + "'"@)
                },
                None => Err("invalid literal for int() with base 10: '"@ + s@ + "'"@),
            },
            Some(JsonValue::Bool(b)) => Ok(if b { 1u32 } else { 0u32 }),
            Some(_) => Err("int() argument must be a string or a number"@),
        },
        _ => Err("argument of type is not iterable"@),
    }
}

/// `cwe_from_dict(data)`.
pub fn cwe_from_dict(data: &JsonValue) -> (r: Result<Cwe, BaselineError>)
    ensures
        match cwe_of(*data) {
            Ok(id) => r matches Ok(c) && c.0 == id,
            Err(e) => r matches Err(x) && x.0@ == e,
        },
{
    match data {
        JsonValue::Object(entries) => match get_entry(entries, "id") {
            None => Ok(Cwe(0)),
            Some(JsonValue::Number(JsonNumber::PosInt(u))) => Ok(Cwe((*u % 4294967296) as u32)),
            Some(JsonValue::Number(JsonNumber::NegInt(_))) => Ok(Cwe(0)),
            Some(JsonValue::Number(JsonNumber::Float(b))) => Ok(Cwe(clamp_whole(*b))),
            Some(JsonValue::Str(s)) => {
                let t = trim(s.as_str());
                match parse_u32(t.as_str()) {
                    Some(v) => Ok(Cwe(v)),
                    None => {
                        let mut m = to_owned_string("invalid literal for int() with base 10: '");
                        push_str(&mut m, s.as_str());
                        push_str(&mut m, "'");
                        Err(BaselineError(m))
                    },
                }
            },
            Some(JsonValue::Bool(b)) => Ok(Cwe(if *b { 1 } else { 0 })),
            Some(_) => Err(BaselineError(to_owned_string("int() argument must be a string or a number"))),
        },
        _ => Err(BaselineError(to_owned_string("argument of type is not iterable"))),
    }
}

/// The text of a string value.
pub open spec fn text_of(v: JsonValue) -> Option<Seq<char>> {
    match v {
        JsonValue::Str(s) => Some(s@),
        _ => None,
    }
}

fn opt_text(v: &JsonValue) -> (r: Option<String>)
    ensures
        match text_of(*v) {
            Some(t) => r is Some && r.unwrap()@ == t,
            None => r is None,
        },
{
    match v {
        JsonValue::Str(s) => Some(copy_string(s)),
        _ => None,
    }
}

/// The first of `keys` that the entries lack.
pub open spec fn first_missing(entries: Seq<(String, JsonValue)>, keys: Seq<Seq<char>>) -> Option<Seq<char>>
    decreases keys.len(),
{
    if keys.len() == 0 {
        None
    } else if entry_of(entries, keys[0]) is None {
        Some(keys[0])
    } else {
        first_missing(entries, keys.skip(1))
    }
}

/// The keys a baseline issue must have before its weakness id is read.
pub open spec fn keys_before_cwe() -> Seq<Seq<char>> {
    seq!["code"@, "filename"@, "issue_severity"@, "issue_cwe"@]
}

/// The keys a baseline issue must have after its weakness id is read.
pub open spec fn keys_after_cwe() -> Seq<Seq<char>> {
    seq!["issue_confidence"@, "issue_text"@, "test_name"@, "test_id"@, "line_number"@, "line_range"@]
}

/// The error loading a baseline issue from `data`, if any: not an object,
/// a missing key (`'key'`), or an invalid weakness id, whichever comes
/// first.
pub open spec fn baseline_issue_error(data: JsonValue) -> Option<Seq<char>> {
    match data {
        JsonValue::Object(entries) => match first_missing(entries@, keys_before_cwe()) {
            Some(k) => Some("'"@ + k + "'"@),
            None => match cwe_of(entry_of(entries@, "issue_cwe"@).unwrap()) {
                Err(e) => Some(e),
                Ok(_) => match first_missing(entries@, keys_after_cwe()) {
                    Some(k) => Some("'"@ + k + "'"@),
                    None => None,
                },
            },
        },
        _ => Some("issue is not a dictionary"@),
    }
}

/// Whether `v` is the value of `key` in `entries` (a copy of it).
pub open spec fn copied_from(v: JsonValue, entries: Seq<(String, JsonValue)>, key: Seq<char>) -> bool {
    entry_of(entries, key) is Some && same_json(entry_of(entries, key).unwrap(), v)
}

/// Whether `b` is the baseline issue the object `entries` describes.
pub open spec fn loaded_issue(entries: Seq<(String, JsonValue)>, b: BaselineIssue) -> bool {
    &&& copied_from(b.code, entries, "code"@)
    &&& opt_text_is(b.fname, text_of(entry_of(entries, "filename"@).unwrap()))
    &&& opt_text_is(b.severity, text_of(entry_of(entries, "issue_severity"@).unwrap()))
    &&& cwe_of(entry_of(entries, "issue_cwe"@).unwrap()) == Ok::<u32, Seq<char>>(b.cwe.0)
    &&& opt_text_is(b.confidence, text_of(entry_of(entries, "issue_confidence"@).unwrap()))
    &&& opt_text_is(b.text, text_of(entry_of(entries, "issue_text"@).unwrap()))
    &&& opt_text_is(b.test, text_of(entry_of(entries, "test_name"@).unwrap()))
    &&& opt_text_is(b.test_id, text_of(entry_of(entries, "test_id"@).unwrap()))
    &&& copied_from(b.line_number, entries, "line_number"@)
    &&& copied_from(b.line_range, entries, "line_range"@)
    &&& match entry_of(entries, "col_offset"@) {
        Some(v) => same_json(v, b.col_offset),
        None => b.col_offset == JsonValue::Number(JsonNumber::PosInt(0)),
    }
    &&& match entry_of(entries, "end_col_offset"@) {
        Some(v) => same_json(v, b.end_col_offset),
        None => b.end_col_offset == JsonValue::Number(JsonNumber::PosInt(0)),
    }
}

/// An optional string with the view `t`.
pub open spec fn opt_text_is(o: Option<String>, t: Option<Seq<char>>) -> bool {
    match o {
        Some(s) => t == Some(s@),
        None => t is None,
    }
}

fn required<'a>(entries: &'a Vec<(String, JsonValue)>, key: &str) -> (r: Result<&'a JsonValue, BaselineError>)
    ensures
        match entry_of(entries@, key@) {
            Some(v) => r == Ok::<&JsonValue, BaselineError>(&v),
            None => r matches Err(e) && e.0@ == "'"@ + key@ + "'"@,
        },
{
    match get_entry(entries, key) {
        Some(v) => Ok(v),
        None => {
            let mut m = to_owned_string("'");
            push_str(&mut m, key);
            push_str(&mut m, "'");
            Err(BaselineError(m))
        },
    }
}

fn copy_or_zero(v: Option<&JsonValue>) -> (r: JsonValue)
    ensures
        match v {
            Some(x) => same_json(*x, r),
            None => r == JsonValue::Number(JsonNumber::PosInt(0)),
        },
{
    match v {
        Some(x) => copy_json(x),
        None => JsonValue::Number(JsonNumber::PosInt(0)),
    }
}

/// `BaselineIssue.from_dict(data)`.
pub fn from_dict(data: &JsonValue) -> (r: Result<BaselineIssue, BaselineError>)
    ensures
        match baseline_issue_error(*data) {
            Some(e) => r matches Err(x) && x.0@ == e,
            None => r matches Ok(b) && loaded_issue(data->Object_0@, b),
        },
{
    proof {
        reveal_with_fuel(first_missing, 7);
    }
    let entries = match data {
        JsonValue::Object(e) => e,
        _ => return Err(BaselineError(to_owned_string("issue is not a dictionary"))),
    };
    let code = match required(entries, "code") { Ok(v) => copy_json(v), Err(e) => return Err(e) };
    let fname = match required(entries, "filename") { Ok(v) => opt_text(v), Err(e) => return Err(e) };
    let severity = match required(entries, "issue_severity") { Ok(v) => opt_text(v), Err(e) => return Err(e) };
    let cwe = match required(entries, "issue_cwe") {
        Ok(v) => match cwe_from_dict(v) {
            Ok(c) => c,
            Err(e) => return Err(e),
        },
        Err(e) => return Err(e),
    };
    let confidence = match required(entries, "issue_confidence") { Ok(v) => opt_text(v), Err(e) => return Err(e) };
    let text = match required(entries, "issue_text") { Ok(v) => opt_text(v), Err(e) => return Err(e) };
    let test = match required(entries, "test_name") { Ok(v) => opt_text(v), Err(e) => return Err(e) };
    let test_id = match required(entries, "test_id") { Ok(v) => opt_text(v), Err(e) => return Err(e) };
    let line_number = match required(entries, "line_number") { Ok(v) => copy_json(v), Err(e) => return Err(e) };
    let line_range = match required(entries, "line_range") { Ok(v) => copy_json(v), Err(e) => return Err(e) };
    let col_offset = copy_or_zero(get_entry(entries, "col_offset"));
    let end_col_offset = copy_or_zero(get_entry(entries, "end_col_offset"));
    Ok(BaselineIssue {
        text,
        severity,
        cwe,
        confidence,
        fname,
        test,
        test_id,
        code,
        line_number,
        line_range,
        col_offset,
        end_col_offset,
    })
}

/// The issues of a baseline report, or the error loading them: `'results'`
/// when the report has no results, `results is not a list`, or the error
/// of the first issue that fails to load.
pub open spec fn baseline_of(doc: JsonValue) -> Result<Seq<JsonValue>, Seq<char>> {
    match doc {
        JsonValue::Object(entries) => match entry_of(entries@, "results"@) {
            Some(JsonValue::Array(items)) => Ok(items@),
            Some(_) => Err("results is not a list"@),
            None => Err("'results'"@),
        },
        _ => Err("'results'"@),
    }
}

/// The first error among the issues `items`.
pub open spec fn first_issue_error(items: Seq<JsonValue>) -> Option<Seq<char>>
    decreases items.len(),
{
    if items.len() == 0 {
        None
    } else {
        match first_issue_error(items.drop_last()) {
            Some(e) => Some(e),
            None => baseline_issue_error(items.last()),
        }
    }
}

/// Reads the issues of a baseline report.
pub fn baseline_from_json(doc: &JsonValue) -> (r: Result<Vec<BaselineIssue>, String>)
    ensures
        match baseline_of(*doc) {
            Err(e) => r matches Err(x) && x@ == e,
            Ok(items) => match first_issue_error(items) {
                Some(e) => r matches Err(x) && x@ == e,
                None => r matches Ok(v) && v@.len() == items.len() && forall|k: int| 0 <= k < items.len()
                    ==> loaded_issue((#[trigger] items[k])->Object_0@, v@[k]),
            },
        },
{
    let entries = match doc {
        JsonValue::Object(e) => e,
        _ => return Err(to_owned_string("'results'")),
    };
    let items = match get_entry(entries, "results") {
        Some(JsonValue::Array(a)) => a,
        Some(_) => return Err(to_owned_string("results is not a list")),
        None => return Err(to_owned_string("'results'")),
    };
    let mut out: Vec<BaselineIssue> = Vec::new();
    let mut i: usize = 0;
    assert(baseline_of(*doc) == Ok::<Seq<JsonValue>, Seq<char>>(items@));
    while i < items.len()
        invariant
            baseline_of(*doc) == Ok::<Seq<JsonValue>, Seq<char>>(items@),
            i <= items@.len(),
            first_issue_error(items@.subrange(0, i as int)) is None,
            out@.len() == i,
            forall|k: int| 0 <= k < i ==> loaded_issue((#[trigger] items@[k])->Object_0@, out@[k]),
        decreases items@.len() - i,
    {
        let ghost u = items@.subrange(0, i + 1);
        assert(u.drop_last() =~= items@.subrange(0, i as int));
        assert(u.last() == items@[i as int]);
        match from_dict(&items[i]) {
            Ok(b) => {
                out.push(b);
            },
            Err(e) => {
                proof {
                    assert(baseline_issue_error(items@[i as int]) == Some(e.0@));
                    assert(first_issue_error(u) == Some(e.0@));
                    lemma_first_error_prefix(items@, i + 1);
                    assert(baseline_of(*doc) == Ok::<Seq<JsonValue>, Seq<char>>(items@));
                }
                return Err(e.0);
            },
        }
        i = i + 1;
    }
    assert(items@.subrange(0, items@.len() as int) =~= items@);
    Ok(out)
}

proof fn lemma_first_error_prefix(s: Seq<JsonValue>, k: int)
    requires
        0 < k <= s.len(),
        first_issue_error(s.subrange(0, k)) is Some,
    ensures
        first_issue_error(s) == first_issue_error(s.subrange(0, k)),
    decreases s.len() - k,
{
    if k < s.len() {
        let t = s.subrange(0, k + 1);
        assert(t.drop_last() =~= s.subrange(0, k));
        lemma_first_error_prefix(s, k + 1);
    } else {
        assert(s.subrange(0, k) =~= s);
    }
}

/// The key of entry `k` of an object.
pub open spec fn key_at(v: JsonValue, k: int) -> Seq<char> {
    v->Object_0@[k].0@
}

/// The value of entry `k` of an object.
pub open spec fn val_at(v: JsonValue, k: int) -> JsonValue {
    v->Object_0@[k].1
}

/// The JSON number of an unsigned integer.
pub open spec fn uint(n: u64) -> JsonValue {
    JsonValue::Number(JsonNumber::PosInt(n))
}

/// Whether `v` is the string `t`.
pub open spec fn is_text(v: JsonValue, t: Seq<char>) -> bool {
    text_of(v) == Some(t)
}

/// `Cwe.as_dict()`: `{"id": .., "link": ..}`, or `{}` when not set.
pub open spec fn cwe_json(c: Cwe, v: JsonValue) -> bool {
    &&& v is Object
    &&& if c.0 != 0 {
        &&& v->Object_0@.len() == 2
        &&& key_at(v, 0) == "id"@ && val_at(v, 0) == uint(c.0 as u64)
        &&& key_at(v, 1) == "link"@ && is_text(val_at(v, 1), crate::engine::issue::cwe_link(c.0 as nat))
    } else {
        v->Object_0@.len() == 0
    }
}

/// A line range as a JSON list of its line numbers.
pub open spec fn range_json(r: crate::engine::issue::LineRange, v: JsonValue) -> bool {
    &&& v is Array
    &&& v->Array_0@.len() == crate::engine::issue::range_lines(r).len()
    &&& forall|k: int| 0 <= k < v->Array_0@.len() ==> #[trigger] v->Array_0@[k] == uint(crate::engine::issue::range_lines(r)[k] as u64)
}

fn text_value(s: &str) -> (r: JsonValue)
    ensures
        is_text(r, s@),
{
    JsonValue::Str(to_owned_string(s))
}

fn push_entry(entries: &mut Vec<(String, JsonValue)>, key: &str, v: JsonValue)
    ensures
        final(entries)@.len() == old(entries)@.len() + 1,
        forall|k: int| 0 <= k < old(entries)@.len() ==> #[trigger] final(entries)@[k] == old(entries)@[k],
        final(entries)@.last().0@ == key@,
        final(entries)@.last().1 == v,
{
    entries.push((to_owned_string(key), v));
}

impl Cwe {
    /// `as_dict()`.
    pub fn as_dict(self) -> (r: JsonValue)
        ensures
            cwe_json(self, r),
    {
        let mut e: Vec<(String, JsonValue)> = Vec::new();
        if self.is_set() {
            push_entry(&mut e, "id", JsonValue::Number(JsonNumber::PosInt(self.0 as u64)));
            let l = self.link();
            push_entry(&mut e, "link", JsonValue::Str(l));
        }
        JsonValue::Object(e)
    }
}

impl crate::engine::issue::LineRange {
    /// `to_json()`: the list of the range's line numbers.
    pub fn to_json(self) -> (r: JsonValue)
        ensures
            range_json(self, r),
    {
        let lines = self.to_vec();
        let mut out: Vec<JsonValue> = Vec::new();
        let mut i: usize = 0;
        while i < lines.len()
            invariant
                lines@ == crate::engine::issue::range_lines(self),
                i <= lines@.len(),
                out@.len() == i,
                forall|k: int| 0 <= k < i ==> #[trigger] out@[k] == uint(lines@[k] as u64),
            decreases lines@.len() - i,
        {
            out.push(JsonValue::Number(JsonNumber::PosInt(lines[i] as u64)));
            i = i + 1;
        }
        JsonValue::Array(out)
    }
}

/// The keys of `Issue.as_dict()`, in order.
pub open spec fn issue_keys(with_code: bool) -> Seq<Seq<char>> {
    seq![
        "filename"@, "test_name"@, "test_id"@, "issue_severity"@, "issue_cwe"@, "issue_confidence"@,
        "issue_text"@, "line_number"@, "line_range"@, "col_offset"@, "end_col_offset"@,
    ] + if with_code { seq!["code"@] } else { Seq::empty() }
}

/// The entries of `Issue.as_dict(with_code, max_lines)`.
pub open spec fn issue_entries(i: crate::engine::issue::Issue, with_code: bool, max_lines: int, e: Seq<(String, JsonValue)>) -> bool {
    &&& e.len() == issue_keys(with_code).len()
    &&& forall|k: int| 0 <= k < e.len() ==> #[trigger] e[k].0@ == issue_keys(with_code)[k]
    &&& is_text(e[0].1, i.fname@)
    &&& is_text(e[1].1, i.test@)
    &&& is_text(e[2].1, i.test_id@)
    &&& is_text(e[3].1, crate::constants::rank_name(i.severity))
    &&& cwe_json(i.cwe, e[4].1)
    &&& is_text(e[5].1, crate::constants::rank_name(i.confidence))
    &&& is_text(e[6].1, i.text@)
    &&& e[7].1 == uint(i.lineno as u64)
    &&& range_json(i.linerange, e[8].1)
    &&& e[9].1 == uint(i.col_offset as u64)
    &&& e[10].1 == uint(i.end_col_offset as u64)
    &&& with_code ==> is_text(e[11].1, crate::engine::issue::issue_code(i, max_lines, false))
}

/// `Issue.as_dict(with_code, max_lines)`.
pub open spec fn issue_json(i: crate::engine::issue::Issue, with_code: bool, max_lines: int, v: JsonValue) -> bool {
    v is Object && issue_entries(i, with_code, max_lines, v->Object_0@)
}

impl crate::engine::issue::Issue {
    /// `as_dict(with_code, max_lines)`.
    pub fn as_dict(&self, with_code: bool, max_lines: i64) -> (r: JsonValue)
        ensures
            issue_json(*self, with_code, max_lines as int, r),
    {
        let mut e: Vec<(String, JsonValue)> = Vec::new();
        push_entry(&mut e, "filename", text_value(self.fname.as_str()));
        push_entry(&mut e, "test_name", text_value(self.test.as_str()));
        push_entry(&mut e, "test_id", text_value(self.test_id.as_str()));
        push_entry(&mut e, "issue_severity", text_value(self.severity.as_str()));
        push_entry(&mut e, "issue_cwe", self.cwe.as_dict());
        push_entry(&mut e, "issue_confidence", text_value(self.confidence.as_str()));
        push_entry(&mut e, "issue_text", text_value(self.text.as_str()));
        push_entry(&mut e, "line_number", JsonValue::Number(JsonNumber::PosInt(self.lineno as u64)));
        push_entry(&mut e, "line_range", self.linerange.to_json());
        push_entry(&mut e, "col_offset", JsonValue::Number(JsonNumber::PosInt(self.col_offset as u64)));
        push_entry(&mut e, "end_col_offset", JsonValue::Number(JsonNumber::PosInt(self.end_col_offset as u64)));
        if with_code {
            let c = self.get_code(max_lines, false);
            push_entry(&mut e, "code", JsonValue::Str(c));
        }
        let r = JsonValue::Object(e);
        assert forall|k: int| 0 <= k < r->Object_0@.len() implies #[trigger] key_at(r, k) == issue_keys(with_code)[k] by {
            if k == 11 {
                assert(issue_keys(with_code)[11] == "code"@);
            }
        }
        r
    }
}

} // verus!

verus! {

/// Looking a key up finds the first entry that has it.
proof fn lemma_entry_at(entries: Seq<(String, JsonValue)>, key: Seq<char>, k: int)
    requires
        0 <= k < entries.len(),
        entries[k].0@ == key,
        forall|j: int| 0 <= j < k ==> #[trigger] entries[j].0@ != key,
    ensures
        entry_of(entries, key) == Some(entries[k].1),
    decreases k,
{
    if k > 0 {
        assert forall|j: int| 0 <= j < k - 1 implies #[trigger] entries.skip(1)[j].0@ != key by {
            assert(entries.skip(1)[j] == entries[j + 1]);
        }
        lemma_entry_at(entries.skip(1), key, k - 1);
    }
}

/// The keys of a written issue are distinct.
proof fn lemma_issue_keys_distinct()
    ensures
        forall|j: int, k: int| 0 <= j < k < 12 ==> #[trigger] issue_keys(true)[j] != #[trigger] issue_keys(true)[k],
{
    reveal_strlit("filename");
    reveal_strlit("test_name");
    reveal_strlit("test_id");
    reveal_strlit("issue_severity");
    reveal_strlit("issue_cwe");
    reveal_strlit("issue_confidence");
    reveal_strlit("issue_text");
    reveal_strlit("line_number");
    reveal_strlit("line_range");
    reveal_strlit("col_offset");
    reveal_strlit("end_col_offset");
    reveal_strlit("code");
    let s = issue_keys(true);
    assert(s.len() == 12);
    assert forall|j: int, k: int| 0 <= j < k < 12 implies #[trigger] s[j] != #[trigger] s[k] by {
        if s[j] == s[k] {
            assert(s[j].len() == s[k].len());
            assert(s[j][0] == s[k][0]);
        }
    }
}

/// An issue written with its code into a report loads back from that
/// report as a baseline issue, and the issue it loads as matches the issue
/// that was written: a rerun recognizes every issue of a saved report.
pub proof fn lemma_written_issue_reloads(i: crate::engine::issue::Issue, max_lines: int, v: JsonValue, b: BaselineIssue)
    requires
        issue_json(i, true, max_lines, v),
        loaded_issue(v->Object_0@, b),
    ensures
        baseline_issue_error(v) is None,
        crate::engine::issue::matches_baseline_spec(i, b),
{
    let e = v->Object_0@;
    lemma_issue_keys_distinct();
    assert forall|k: int| 0 <= k < 12 implies #[trigger] e[k].0@ == issue_keys(true)[k] by {
        assert(key_at(v, k) == issue_keys(true)[k]);
    }
    reveal_strlit("code");
    reveal_strlit("filename");
    reveal_strlit("test_name");
    reveal_strlit("test_id");
    reveal_strlit("issue_severity");
    reveal_strlit("issue_cwe");
    reveal_strlit("issue_confidence");
    reveal_strlit("issue_text");
    reveal_strlit("line_number");
    reveal_strlit("line_range");
    assert forall|k: int| 0 <= k < 12 implies entry_of(e, #[trigger] issue_keys(true)[k]) == Some(e[k].1) by {
        assert forall|j: int| 0 <= j < k implies #[trigger] e[j].0@ != issue_keys(true)[k] by {
            assert(e[j].0@ == issue_keys(true)[j]);
            assert(issue_keys(true)[j] != issue_keys(true)[k]);
        }
        lemma_entry_at(e, issue_keys(true)[k], k);
    }
    assert(entry_of(e, issue_keys(true)[11]) == Some(e[11].1));
    assert(entry_of(e, issue_keys(true)[0]) == Some(e[0].1));
    assert(entry_of(e, issue_keys(true)[1]) == Some(e[1].1));
    assert(entry_of(e, issue_keys(true)[2]) == Some(e[2].1));
    assert(entry_of(e, issue_keys(true)[3]) == Some(e[3].1));
    assert(entry_of(e, issue_keys(true)[4]) == Some(e[4].1));
    assert(entry_of(e, issue_keys(true)[5]) == Some(e[5].1));
    assert(entry_of(e, issue_keys(true)[6]) == Some(e[6].1));
    assert(entry_of(e, issue_keys(true)[7]) == Some(e[7].1));
    assert(entry_of(e, issue_keys(true)[8]) == Some(e[8].1));
    let c = val_at(v, 4);
    if i.cwe.0 != 0 {
        assert(c->Object_0@[0].0@ == "id"@);
        lemma_entry_at(c->Object_0@, "id"@, 0);
    }
    assert(cwe_of(c) == Ok::<u32, Seq<char>>(i.cwe.0));
    reveal_with_fuel(first_missing, 7);
}

/// Rank names tell ranks apart.
proof fn lemma_rank_name_injective(a: crate::constants::Rank, b: crate::constants::Rank)
    ensures
        crate::constants::rank_name(a) == crate::constants::rank_name(b) <==> a == b,
{
    reveal_strlit("UNDEFINED");
    reveal_strlit("LOW");
    reveal_strlit("MEDIUM");
    reveal_strlit("HIGH");
    if crate::constants::rank_name(a) == crate::constants::rank_name(b) {
        let x = crate::constants::rank_name(a);
        let y = crate::constants::rank_name(b);
        assert(x.len() == y.len());
        assert(x[0] == y[0]);
    }
}

/// Against a saved report, an issue of a new run matches the baseline
/// issue loaded from the report's entry for issue `j` exactly when the two
/// issues have the same signature: same text, severity, CWE, confidence,
/// file name, test name and test id. An issue in another file, or of
/// another test, is new.
pub proof fn lemma_baseline_match_is_same_signature(
    i: crate::engine::issue::Issue,
    j: crate::engine::issue::Issue,
    max_lines: int,
    v: JsonValue,
    b: BaselineIssue,
)
    requires
        issue_json(j, true, max_lines, v),
        loaded_issue(v->Object_0@, b),
    ensures
        crate::engine::issue::matches_baseline_spec(i, b) <==> crate::engine::issue::same_signature_spec(i, j),
{
    lemma_written_issue_reloads(j, max_lines, v, b);
    lemma_rank_name_injective(i.severity, j.severity);
    lemma_rank_name_injective(i.confidence, j.confidence);
    assert(b.fname.unwrap()@ == j.fname@);
    assert(b.test.unwrap()@ == j.test@);
    assert(b.test_id.unwrap()@ == j.test_id@);
    assert(b.text.unwrap()@ == j.text@);
    assert(b.cwe == j.cwe);
}

/// In an issue's dictionary each key holds the attribute it names:
/// `issue_severity` the severity's name, `issue_confidence` the
/// confidence's, `filename` the file, `test_name` and `test_id` the test,
/// `issue_text` the text, `line_number` the line.
pub proof fn lemma_issue_dict_keys_name_fields(i: crate::engine::issue::Issue, max_lines: int, v: JsonValue)
    requires
        issue_json(i, true, max_lines, v),
    ensures
        text_of(entry_of(v->Object_0@, "issue_severity"@).unwrap()) == Some(crate::constants::rank_name(i.severity)),
        text_of(entry_of(v->Object_0@, "issue_confidence"@).unwrap()) == Some(crate::constants::rank_name(i.confidence)),
        text_of(entry_of(v->Object_0@, "filename"@).unwrap()) == Some(i.fname@),
        text_of(entry_of(v->Object_0@, "test_name"@).unwrap()) == Some(i.test@),
        text_of(entry_of(v->Object_0@, "test_id"@).unwrap()) == Some(i.test_id@),
        text_of(entry_of(v->Object_0@, "issue_text"@).unwrap()) == Some(i.text@),
        entry_of(v->Object_0@, "line_number"@) == Some(uint(i.lineno as u64)),
        entry_of(v->Object_0@, "issue_severity"@) is Some && entry_of(v->Object_0@, "issue_confidence"@) is Some,
        entry_of(v->Object_0@, "filename"@) is Some && entry_of(v->Object_0@, "issue_text"@) is Some,
        entry_of(v->Object_0@, "test_name"@) is Some && entry_of(v->Object_0@, "test_id"@) is Some,
{
    let e = v->Object_0@;
    lemma_issue_keys_distinct();
    assert forall|k: int| 0 <= k < 12 implies #[trigger] e[k].0@ == issue_keys(true)[k] by {
        assert(key_at(v, k) == issue_keys(true)[k]);
    }
    assert forall|k: int| 0 <= k < 12 implies entry_of(e, #[trigger] issue_keys(true)[k]) == Some(e[k].1) by {
        assert forall|j: int| 0 <= j < k implies #[trigger] e[j].0@ != issue_keys(true)[k] by {
            assert(e[j].0@ == issue_keys(true)[j]);
            assert(issue_keys(true)[j] != issue_keys(true)[k]);
        }
        lemma_entry_at(e, issue_keys(true)[k], k);
    }
    assert(entry_of(e, issue_keys(true)[0]) == Some(e[0].1));
    assert(entry_of(e, issue_keys(true)[1]) == Some(e[1].1));
    assert(entry_of(e, issue_keys(true)[2]) == Some(e[2].1));
    assert(entry_of(e, issue_keys(true)[3]) == Some(e[3].1));
    assert(entry_of(e, issue_keys(true)[5]) == Some(e[5].1));
    assert(entry_of(e, issue_keys(true)[6]) == Some(e[6].1));
    assert(entry_of(e, issue_keys(true)[7]) == Some(e[7].1));
}

} // verus!
