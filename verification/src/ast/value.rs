//! Python values read from literals of the syntax tree: their `repr`,
//! `str`, truthiness, equality and hashability, and the building of a set
//! literal.

use vstd::prelude::*;
use crate::ast::literal::{PyErr, repr_bytes, repr_bytes_spec, repr_str, repr_str_spec};
use crate::pycompat::double::{double_bits_eq, double_eq, double_integer, int_as_double, int_eq_double, is_nan, is_zero, sign_bit, two_pow, lemma_two_pow_128};
use crate::text::{decimal, push_char, push_decimal_u128, push_str, seq_join, str_eq, to_owned_string, copy_string};
use crate::formatters::text::join;

verus! {

/// A float, held by its IEEE-754 bits, with Python's `repr` of it.
#[derive(Debug)]
pub struct PyFloat {
    pub bits: u64,
    /// `repr(value)` as Python writes it (`1.5`, `1e+16`, `nan`, `-inf`).
    pub repr: String,
}

/// A dictionary literal: its identity (two dictionary values are equal
/// only when they are the same literal) and, for each item, the class
/// names of its key node (`None` for `**` unpacking) and value node.
#[derive(Debug)]
pub struct DictRef {
    pub id: u64,
    pub items: Vec<(Option<String>, String)>,
}

/// A Python value derived from a literal.
#[derive(Debug)]
pub enum PyValue {
    /// `None` (node types that are not literals).
    NoneValue,
    /// `str` (booleans and the `None` constant are their names).
    Str(String),
    Bytes(Vec<u8>),
    Int(i128),
    /// An integer too large for `i128`, as decimal text.
    BigInt(String),
    Float(PyFloat),
    Complex(PyFloat, PyFloat),
    Ellipsis,
    List(Vec<PyValue>),
    Tuple(Vec<PyValue>),
    SetValue(Vec<PyValue>),
    Dict(DictRef),
}

/// `str(i)` of an integer.
pub open spec fn int_text(i: int) -> Seq<char> {
    if i < 0 { seq!['-'] + decimal((-i) as nat) } else { decimal(i as nat) }
}

/// A float's repr without a trailing `.0` (as written inside a complex).
pub open spec fn short_repr(r: Seq<char>) -> Seq<char> {
    if r.len() >= 2 && r.subrange(r.len() - 2, r.len() as int) == ".0"@ {
        r.subrange(0, r.len() - 2)
    } else {
        r
    }
}

/// The repr of a float's absolute value, from the float's repr.
pub open spec fn abs_repr(r: Seq<char>) -> Seq<char> {
    if r.len() > 0 && r[0] == '-' { r.skip(1) } else { r }
}

/// `repr()` of a node: `<ast.Name object at 0x0>`.
pub open spec fn node_repr_spec(class: Seq<char>) -> Seq<char> {
    "<ast."@ + class + " object at 0x0>"@
}

/// `repr()` of a dictionary item.
pub open spec fn dict_item_repr(item: (Option<String>, String)) -> Seq<char> {
    (match item.0 {
        Some(k) => node_repr_spec(k@),
        None => "None"@,
    }) + ": "@ + node_repr_spec(item.1@)
}

/// `repr()` of a complex number.
pub open spec fn complex_repr(re: PyFloat, im: PyFloat) -> Seq<char> {
    if re.bits == 0 {
        short_repr(im.repr@) + "j"@
    } else {
        "("@ + short_repr(re.repr@) + (if sign_bit(im.bits) && !is_nan(im.bits) { "-"@ } else { "+"@ })
            + short_repr(abs_repr(im.repr@)) + "j)"@
    }
}

/// `repr(value)`.
pub open spec fn value_repr(v: PyValue) -> Seq<char>
    decreases v, 0nat,
{
    match v {
        PyValue::NoneValue => "None"@,
        PyValue::Str(s) => repr_str_spec(s@),
        PyValue::Bytes(b) => repr_bytes_spec(b@),
        PyValue::Int(i) => int_text(i as int),
        PyValue::BigInt(s) => s@,
        PyValue::Float(f) => f.repr@,
        PyValue::Complex(re, im) => complex_repr(re, im),
        PyValue::Ellipsis => "Ellipsis"@,
        PyValue::List(l) => "["@ + items_repr(l@) + "]"@,
        PyValue::Tuple(t) => if t@.len() == 1 {
            "("@ + items_repr(t@) + ",)"@
        } else {
            "("@ + items_repr(t@) + ")"@
        },
        PyValue::SetValue(s) => if s@.len() == 0 {
            "set()"@
        } else {
            "{"@ + items_repr(s@) + "}"@
        },
        PyValue::Dict(d) => "{"@ + seq_join(d.items@.map_values(|it: (Option<String>, String)| dict_item_repr(it)), ", "@) + "}"@,
    }
}

/// The reprs of values, separated by `, `.
pub open spec fn items_repr(s: Seq<PyValue>) -> Seq<char>
    decreases s, 1nat,
{
    if s.len() == 0 {
        Seq::empty()
    } else if s.len() == 1 {
        value_repr(s[0])
    } else {
        items_repr(s.drop_last()) + ", "@ + value_repr(s.last())
    }
}

/// Python truthiness.
pub open spec fn value_truthy(v: PyValue) -> bool {
    match v {
        PyValue::NoneValue => false,
        PyValue::Str(s) => s@.len() > 0,
        PyValue::Bytes(b) => b@.len() > 0,
        PyValue::Int(i) => i != 0,
        PyValue::BigInt(_) => true,
        PyValue::Float(f) => !is_zero(f.bits),
        PyValue::Complex(re, im) => !is_zero(re.bits) || !is_zero(im.bits),
        PyValue::Ellipsis => true,
        PyValue::List(l) => l@.len() > 0,
        PyValue::Tuple(l) => l@.len() > 0,
        PyValue::SetValue(l) => l@.len() > 0,
        PyValue::Dict(d) => d.items@.len() > 0,
    }
}

/// Whether a value can go in a set: no list, set or dictionary, also not
/// inside a tuple.
pub open spec fn value_hashable(v: PyValue) -> bool
    decreases v, 0nat,
{
    match v {
        PyValue::List(_) | PyValue::SetValue(_) | PyValue::Dict(_) => false,
        PyValue::Tuple(t) => items_hashable(t@),
        _ => true,
    }
}

/// Whether every value of `s` is hashable.
pub open spec fn items_hashable(s: Seq<PyValue>) -> bool
    decreases s, 1nat,
{
    if s.len() == 0 {
        true
    } else {
        items_hashable(s.drop_last()) && value_hashable(s.last())
    }
}

/// Whether the number `x` (an `int` or a `float`) equals the float `f`.
pub open spec fn number_eq_float(x: PyValue, f: u64) -> bool {
    match x {
        PyValue::Int(i) => double_integer(f) == Some(int_as_double(i as int)) && !is_nan(f),
        PyValue::Float(g) => double_eq(g.bits, f),
        _ => false,
    }
}

/// Python `a == b`.
pub open spec fn value_eq(a: PyValue, b: PyValue) -> bool
    decreases a, 0nat, 0nat,
{
    match (a, b) {
        (PyValue::NoneValue, PyValue::NoneValue) => true,
        (PyValue::Ellipsis, PyValue::Ellipsis) => true,
        (PyValue::Str(x), PyValue::Str(y)) => x@ == y@,
        (PyValue::Bytes(x), PyValue::Bytes(y)) => x@ == y@,
        (PyValue::Int(x), PyValue::Int(y)) => x == y,
        (PyValue::BigInt(x), PyValue::BigInt(y)) => x@ == y@,
        (PyValue::Float(x), PyValue::Float(y)) => double_eq(x.bits, y.bits),
        (PyValue::Int(_), PyValue::Float(y)) => number_eq_float(a, y.bits),
        (PyValue::Float(x), PyValue::Int(_)) => number_eq_float(b, x.bits),
        (PyValue::Complex(r1, i1), PyValue::Complex(r2, i2)) => double_eq(r1.bits, r2.bits) && double_eq(i1.bits, i2.bits),
        (PyValue::Complex(r, i), o) => is_zero(i.bits) && number_eq_float(o, r.bits),
        (o, PyValue::Complex(r, i)) => is_zero(i.bits) && number_eq_float(o, r.bits),
        (PyValue::List(x), PyValue::List(y)) => x@.len() == y@.len() && items_eq(x@, y@),
        (PyValue::Tuple(x), PyValue::Tuple(y)) => x@.len() == y@.len() && items_eq(x@, y@),
        (PyValue::SetValue(x), PyValue::SetValue(y)) => x@.len() == y@.len() && all_found(x@, y@),
        (PyValue::Dict(x), PyValue::Dict(y)) => x.id == y.id,
        _ => false,
    }
}

/// Whether the values of `a` equal those of `b` at the same positions
/// (for the positions of `a`).
pub open spec fn items_eq(a: Seq<PyValue>, b: Seq<PyValue>) -> bool
    decreases a, 1nat, 0nat,
{
    if a.len() == 0 {
        true
    } else {
        items_eq(a.drop_last(), b) && a.len() <= b.len() && value_eq(a.last(), b[a.len() - 1])
    }
}

/// Whether `x` equals some value of `s`.
pub open spec fn found(x: PyValue, s: Seq<PyValue>) -> bool
    decreases x, 1nat, s.len(),
{
    if s.len() == 0 {
        false
    } else {
        found(x, s.drop_last()) || value_eq(x, s.last())
    }
}

/// Whether every value of `a` equals some value of `b`.
pub open spec fn all_found(a: Seq<PyValue>, b: Seq<PyValue>) -> bool
    decreases a, 1nat, 0nat,
{
    if a.len() == 0 {
        true
    } else {
        all_found(a.drop_last(), b) && found(a.last(), b)
    }
}

fn int_repr(i: i128) -> (r: String)
    ensures
        r@ == int_text(i as int),
{
    let mut s = String::new();
    if i < 0 {
        push_char(&mut s, '-');
        let m: u128 = if i == i128::MIN { 170141183460469231731687303715884105728 } else { (-i) as u128 };
        push_decimal_u128(&mut s, m);
    } else {
        push_decimal_u128(&mut s, i as u128);
    }
    assert(s@ =~= int_text(i as int));
    s
}

fn short_text(r: &str) -> (out: String)
    ensures
        out@ == short_repr(r@),
{
    let n = r.unicode_len();
    if n >= 2 && r.get_char(n - 2) == '.' && r.get_char(n - 1) == '0' {
        assert(r@.subrange(n - 2, n as int) =~= ".0"@) by {
            reveal_strlit(".0");
        }
        r.substring_char(0, n - 2).to_string()
    } else {
        proof {
            reveal_strlit(".0");
            if n >= 2 && r@.subrange(n - 2, n as int) == ".0"@ {
                assert(r@.subrange(n - 2, n as int)[0] == r@[n - 2]);
                assert(r@.subrange(n - 2, n as int)[1] == r@[n - 1]);
            }
        }
        to_owned_string(r)
    }
}

fn abs_text(r: &str) -> (out: String)
    ensures
        out@ == abs_repr(r@),
{
    let n = r.unicode_len();
    if n > 0 && r.get_char(0) == '-' {
        r.substring_char(1, n).to_string()
    } else {
        to_owned_string(r)
    }
}

/// `repr()` of a node of class `class`: `<ast.Name object at 0x0>`.
pub fn node_repr(class: &str) -> (r: String)
    ensures
        r@ == node_repr_spec(class@),
{
    let mut s = to_owned_string("<ast.");
    push_str(&mut s, class);
    push_str(&mut s, " object at 0x0>");
    s
}

fn complex_text(re: &PyFloat, im: &PyFloat) -> (r: String)
    ensures
        r@ == complex_repr(*re, *im),
{
    if re.bits == 0 {
        let mut s = short_text(im.repr.as_str());
        push_str(&mut s, "j");
        s
    } else {
        proof {
            lemma_two_pow_128();
        }
        let e = (im.bits / 4503599627370496) % 2048;
        let m = im.bits % 4503599627370496;
        let neg = im.bits >= 9223372036854775808 && !(e == 2047 && m != 0);
        let mut s = to_owned_string("(");
        push_str(&mut s, short_text(re.repr.as_str()).as_str());
        push_str(&mut s, if neg { "-" } else { "+" });
        push_str(&mut s, short_text(abs_text(im.repr.as_str()).as_str()).as_str());
        push_str(&mut s, "j)");
        s
    }
}

fn dict_text(d: &DictRef) -> (r: String)
    ensures
        r@ == "{"@ + seq_join(d.items@.map_values(|it: (Option<String>, String)| dict_item_repr(it)), ", "@) + "}"@,
{
    let mut parts: Vec<String> = Vec::new();
    let mut i: usize = 0;
    while i < d.items.len()
        invariant
            i <= d.items@.len(),
            crate::text::views_of(parts@) =~= d.items@.map_values(|it: (Option<String>, String)| dict_item_repr(it)).subrange(0, i as int),
        decreases d.items@.len() - i,
    {
        let mut t = match &d.items[i].0 {
            Some(k) => node_repr(k.as_str()),
            None => to_owned_string("None"),
        };
        push_str(&mut t, ": ");
        push_str(&mut t, node_repr(d.items[i].1.as_str()).as_str());
        assert(t@ =~= dict_item_repr(d.items@[i as int]));
        let ghost before = crate::text::views_of(parts@);
        parts.push(t);
        assert(crate::text::views_of(parts@) =~= before.push(t@));
        i = i + 1;
    }
    assert(d.items@.map_values(|it: (Option<String>, String)| dict_item_repr(it)).subrange(0, d.items@.len() as int)
        =~= d.items@.map_values(|it: (Option<String>, String)| dict_item_repr(it)));
    let mut s = to_owned_string("{");
    push_str(&mut s, join(&parts, ", ").as_str());
    push_str(&mut s, "}");
    s
}

impl PyValue {
    /// A `str` value.
    pub fn str(s: &str) -> (r: PyValue)
        ensures
            r matches PyValue::Str(t) && t@ == s@,
    {
        PyValue::Str(to_owned_string(s))
    }

    /// The text of a `str` value.
    pub fn as_str(&self) -> (r: Option<&str>)
        ensures
            match *self {
                PyValue::Str(t) => r is Some && r.unwrap()@ == t@,
                _ => r is None,
            },
    {
        match self {
            PyValue::Str(t) => Some(t.as_str()),
            _ => None,
        }
    }

    /// Whether the value is the non-literal `None`.
    pub fn is_none(&self) -> (r: bool)
        ensures
            r == (*self is NoneValue),
    {
        match self {
            PyValue::NoneValue => true,
            _ => false,
        }
    }

    /// Whether the value is a `str`.
    pub fn is_str(&self) -> (r: bool)
        ensures
            r == (*self is Str),
    {
        match self {
            PyValue::Str(_) => true,
            _ => false,
        }
    }

    /// `isinstance(v, int)` (booleans are strings here, so never ints).
    pub fn as_int(&self) -> (r: Option<i128>)
        ensures
            match *self {
                PyValue::Int(i) => r == Some(i),
                _ => r is None,
            },
    {
        match self {
            PyValue::Int(i) => Some(*i),
            _ => None,
        }
    }

    /// The items of a list.
    pub fn as_list(&self) -> (r: Option<&Vec<PyValue>>)
        ensures
            match *self {
                PyValue::List(l) => r == Some(&l),
                _ => r is None,
            },
    {
        match self {
            PyValue::List(l) => Some(l),
            _ => None,
        }
    }

    /// Python truthiness.
    pub fn truthy(&self) -> (r: bool)
        ensures
            r == value_truthy(*self),
    {
        proof {
            lemma_two_pow_128();
        }
        match self {
            PyValue::NoneValue => false,
            PyValue::Str(s) => s.unicode_len() > 0,
            PyValue::Bytes(b) => b.len() > 0,
            PyValue::Int(i) => *i != 0,
            PyValue::BigInt(_) => true,
            PyValue::Float(f) => !float_zero(f.bits),
            PyValue::Complex(re, im) => !float_zero(re.bits) || !float_zero(im.bits),
            PyValue::Ellipsis => true,
            PyValue::List(l) => l.len() > 0,
            PyValue::Tuple(l) => l.len() > 0,
            PyValue::SetValue(l) => l.len() > 0,
            PyValue::Dict(d) => d.items.len() > 0,
        }
    }

    /// Whether the value can go in a set.
    pub fn is_hashable(&self) -> (r: bool)
        ensures
            r == value_hashable(*self),
        decreases self,
    {
        match self {
            PyValue::List(_) | PyValue::SetValue(_) | PyValue::Dict(_) => false,
            PyValue::Tuple(t) => {
                let mut i: usize = 0;
                while i < t.len()
                    invariant
                        *self == PyValue::Tuple(*t),
                        i <= t@.len(),
                        items_hashable(t@.subrange(0, i as int)),
                    decreases t@.len() - i,
                {
                    let ghost u = t@.subrange(0, i + 1);
                    assert(u.drop_last() =~= t@.subrange(0, i as int));
                    proof {
                        assert(decreases_to!(*self => (*self)->Tuple_0));
                        assert(decreases_to!(*t => t@));
                        assert(decreases_to!(t@ => t@[i as int]));
                        assert(decreases_to!(*self => t@[i as int]));
                    }
                    if !t[i].is_hashable() {
                        proof {
                            lemma_items_hashable_prefix(t@, i + 1);
                        }
                        return false;
                    }
                    i = i + 1;
                }
                assert(t@.subrange(0, t@.len() as int) =~= t@);
                true
            },
            _ => true,
        }
    }

    /// Python `repr(value)`.
    pub fn py_repr(&self) -> (r: String)
        ensures
            r@ == value_repr(*self),
        decreases self,
    {
        match self {
            PyValue::NoneValue => to_owned_string("None"),
            PyValue::Str(s) => repr_str(s.as_str()),
            PyValue::Bytes(b) => repr_bytes(b.as_slice()),
            PyValue::Int(i) => int_repr(*i),
            PyValue::BigInt(s) => copy_string(s),
            PyValue::Float(f) => copy_string(&f.repr),
            PyValue::Complex(re, im) => complex_text(re, im),
            PyValue::Ellipsis => to_owned_string("Ellipsis"),
            PyValue::List(l) => {
                let mut s = to_owned_string("[");
                push_str(&mut s, self.items_text(l).as_str());
                push_str(&mut s, "]");
                s
            },
            PyValue::Tuple(t) => {
                let mut s = to_owned_string("(");
                push_str(&mut s, self.items_text(t).as_str());
                if t.len() == 1 {
                    push_str(&mut s, ",)");
                } else {
                    push_str(&mut s, ")");
                }
                s
            },
            PyValue::SetValue(v) => {
                if v.len() == 0 {
                    to_owned_string("set()")
                } else {
                    let mut s = to_owned_string("{");
                    push_str(&mut s, self.items_text(v).as_str());
                    push_str(&mut s, "}");
                    s
                }
            },
            PyValue::Dict(d) => dict_text(d),
        }
    }

    /// The reprs of `items` (the items of `self`), separated by `, `.
    fn items_text(&self, items: &Vec<PyValue>) -> (r: String)
        requires
            *self == PyValue::List(*items) || *self == PyValue::Tuple(*items) || *self == PyValue::SetValue(*items),
        ensures
            r@ == items_repr(items@),
        decreases self, 0nat,
    {
        let mut s = String::new();
        let mut i: usize = 0;
        while i < items.len()
            invariant
                *self == PyValue::List(*items) || *self == PyValue::Tuple(*items) || *self == PyValue::SetValue(*items),
                i <= items@.len(),
                s@ == items_repr(items@.subrange(0, i as int)),
            decreases items@.len() - i,
        {
            let ghost u = items@.subrange(0, i + 1);
            assert(u.drop_last() =~= items@.subrange(0, i as int));
            if i > 0 {
                push_str(&mut s, ", ");
            }
            proof {
                assert(decreases_to!(*items => items@));
                assert(decreases_to!(items@ => items@[i as int]));
                if *self == PyValue::List(*items) {
                    assert(decreases_to!(*self => (*self)->List_0));
                } else if *self == PyValue::Tuple(*items) {
                    assert(decreases_to!(*self => (*self)->Tuple_0));
                } else {
                    assert(decreases_to!(*self => (*self)->SetValue_0));
                }
                assert(decreases_to!(*self => items@[i as int]));
            }
            let t = items[i].py_repr();
            push_str(&mut s, t.as_str());
            proof {
                if i == 0 {
                    assert(s@ =~= items_repr(u));
                }
            }
            i = i + 1;
        }
        assert(items@.subrange(0, items@.len() as int) =~= items@);
        s
    }

    /// Python `str(value)`: the text of a `str`, else its repr.
    pub fn py_str(&self) -> (r: String)
        ensures
            r@ == match *self {
                PyValue::Str(t) => t@,
                _ => value_repr(*self),
            },
    {
        match self {
            PyValue::Str(t) => copy_string(t),
            _ => self.py_repr(),
        }
    }
}

fn float_zero(bits: u64) -> (r: bool)
    ensures
        r == is_zero(bits),
{
    proof {
        lemma_two_pow_128();
    }
    (bits / 4503599627370496) % 2048 == 0 && bits % 4503599627370496 == 0
}

proof fn lemma_items_hashable_prefix(s: Seq<PyValue>, k: int)
    requires
        0 < k <= s.len(),
        !value_hashable(s[k - 1]),
    ensures
        !items_hashable(s),
    decreases s.len(),
{
    if k < s.len() {
        lemma_items_hashable_prefix(s.drop_last(), k);
    }
}

fn float_nan(bits: u64) -> (r: bool)
    ensures
        r == is_nan(bits),
{
    proof {
        lemma_two_pow_128();
    }
    (bits / 4503599627370496) % 2048 == 2047 && bits % 4503599627370496 != 0
}

fn number_eq(x: &PyValue, f: u64) -> (r: bool)
    ensures
        r == number_eq_float(*x, f),
{
    match x {
        PyValue::Int(i) => int_eq_double(*i, f) && !float_nan(f),
        PyValue::Float(g) => double_bits_eq(g.bits, f),
        _ => false,
    }
}

/// Whether some value of `s` equals `v` (`v in s`).
pub open spec fn holds_equal(s: Seq<PyValue>, v: PyValue) -> bool
    decreases s.len(),
{
    if s.len() == 0 {
        false
    } else {
        holds_equal(s.drop_last(), v) || value_eq(s.last(), v)
    }
}

/// The items of a set literal, duplicates dropped (the first one stays);
/// `None` when an item is unhashable.
pub open spec fn set_items_of(s: Seq<PyValue>) -> Option<Seq<PyValue>>
    decreases s.len(),
{
    if s.len() == 0 {
        Some(Seq::empty())
    } else {
        match set_items_of(s.drop_last()) {
            None => None,
            Some(prev) => if !value_hashable(s.last()) {
                None
            } else if holds_equal(prev, s.last()) {
                Some(prev)
            } else {
                Some(prev.push(s.last()))
            },
        }
    }
}

impl PyValue {
    /// Python `self == other`.
    pub fn py_eq(&self, other: &PyValue) -> (r: bool)
        ensures
            r == value_eq(*self, *other),
        decreases self,
    {
        match (self, other) {
            (PyValue::NoneValue, PyValue::NoneValue) => true,
            (PyValue::Ellipsis, PyValue::Ellipsis) => true,
            (PyValue::Str(x), PyValue::Str(y)) => str_eq(x.as_str(), y.as_str()),
            (PyValue::Bytes(x), PyValue::Bytes(y)) => bytes_eq(x, y),
            (PyValue::Int(x), PyValue::Int(y)) => *x == *y,
            (PyValue::BigInt(x), PyValue::BigInt(y)) => str_eq(x.as_str(), y.as_str()),
            (PyValue::Float(x), PyValue::Float(y)) => double_bits_eq(x.bits, y.bits),
            (PyValue::Int(_), PyValue::Float(y)) => number_eq(self, y.bits),
            (PyValue::Float(x), PyValue::Int(_)) => number_eq(other, x.bits),
            (PyValue::Complex(r1, i1), PyValue::Complex(r2, i2)) => double_bits_eq(r1.bits, r2.bits) && double_bits_eq(i1.bits, i2.bits),
            (PyValue::Complex(r, i), o) => float_zero(i.bits) && number_eq(o, r.bits),
            (o, PyValue::Complex(r, i)) => float_zero(i.bits) && number_eq(o, r.bits),
            (PyValue::List(x), PyValue::List(y)) => x.len() == y.len() && self.items_equal(x, y),
            (PyValue::Tuple(x), PyValue::Tuple(y)) => x.len() == y.len() && self.items_equal(x, y),
            (PyValue::SetValue(x), PyValue::SetValue(y)) => x.len() == y.len() && self.all_items_found(x, y),
            (PyValue::Dict(x), PyValue::Dict(y)) => x.id == y.id,
            _ => false,
        }
    }

    /// `items_eq(x, y)` for the items `x` of `self`.
    fn items_equal(&self, x: &Vec<PyValue>, y: &Vec<PyValue>) -> (r: bool)
        requires
            *self == PyValue::List(*x) || *self == PyValue::Tuple(*x),
            x@.len() == y@.len(),
        ensures
            r == items_eq(x@, y@),
        decreases self, 0nat,
    {
        let mut ok = true;
        let mut i: usize = 0;
        while i < x.len()
            invariant
                *self == PyValue::List(*x) || *self == PyValue::Tuple(*x),
                x@.len() == y@.len(),
                i <= x@.len(),
                ok == items_eq(x@.subrange(0, i as int), y@),
            decreases x@.len() - i,
        {
            let ghost u = x@.subrange(0, i + 1);
            assert(u.drop_last() =~= x@.subrange(0, i as int));
            proof {
                assert(decreases_to!(*x => x@));
                assert(decreases_to!(x@ => x@[i as int]));
                if *self == PyValue::List(*x) {
                    assert(decreases_to!(*self => (*self)->List_0));
                } else {
                    assert(decreases_to!(*self => (*self)->Tuple_0));
                }
            }
            let e = x[i].py_eq(&y[i]);
            ok = ok && e;
            i = i + 1;
        }
        assert(x@.subrange(0, x@.len() as int) =~= x@);
        ok
    }

    /// `all_found(x, y)` for the items `x` of `self`.
    fn all_items_found(&self, x: &Vec<PyValue>, y: &Vec<PyValue>) -> (r: bool)
        requires
            *self == PyValue::SetValue(*x),
        ensures
            r == all_found(x@, y@),
        decreases self, 0nat,
    {
        let mut ok = true;
        let mut i: usize = 0;
        while i < x.len()
            invariant
                *self == PyValue::SetValue(*x),
                i <= x@.len(),
                ok == all_found(x@.subrange(0, i as int), y@),
            decreases x@.len() - i,
        {
            let ghost u = x@.subrange(0, i + 1);
            assert(u.drop_last() =~= x@.subrange(0, i as int));
            let mut hit = false;
            let mut j: usize = 0;
            while j < y.len()
                invariant
                    *self == PyValue::SetValue(*x),
                    i < x@.len(),
                    j <= y@.len(),
                    hit == found(x@[i as int], y@.subrange(0, j as int)),
                decreases y@.len() - j,
            {
                let ghost w = y@.subrange(0, j + 1);
                assert(w.drop_last() =~= y@.subrange(0, j as int));
                proof {
                    assert(decreases_to!(*x => x@));
                    assert(decreases_to!(x@ => x@[i as int]));
                    assert(decreases_to!(*self => (*self)->SetValue_0));
                }
                let e = x[i].py_eq(&y[j]);
                hit = hit || e;
                j = j + 1;
            }
            assert(y@.subrange(0, y@.len() as int) =~= y@);
            ok = ok && hit;
            i = i + 1;
        }
        assert(x@.subrange(0, x@.len() as int) =~= x@);
        ok
    }
}

fn bytes_eq(x: &Vec<u8>, y: &Vec<u8>) -> (r: bool)
    ensures
        r == (x@ == y@),
{
    if x.len() != y.len() {
        return false;
    }
    let mut i: usize = 0;
    while i < x.len()
        invariant
            x@.len() == y@.len(),
            i <= x@.len(),
            forall|j: int| 0 <= j < i ==> x@[j] == y@[j],
        decreases x@.len() - i,
    {
        if x[i] != y[i] {
            return false;
        }
        i = i + 1;
    }
    assert(x@ =~= y@);
    true
}

/// Adds an item to the items of a set literal: an error when it is
/// unhashable; dropped when an equal item is there already.
pub fn set_add(items: &mut Vec<PyValue>, v: PyValue) -> (r: Result<(), PyErr>)
    ensures
        !value_hashable(v) ==> r is Err && r->Err_0.0@ == "TypeError: "@ + "unhashable type"@ && final(items)@ == old(items)@,
        value_hashable(v) ==> r is Ok && final(items)@ == if holds_equal(old(items)@, v) {
            old(items)@
        } else {
            old(items)@.push(v)
        },
{
    if !v.is_hashable() {
        return Err(PyErr::type_error("unhashable type"));
    }
    let mut hit = false;
    let mut j: usize = 0;
    while j < items.len()
        invariant
            j <= items@.len(),
            hit == holds_equal(items@.subrange(0, j as int), v),
        decreases items@.len() - j,
    {
        let ghost w = items@.subrange(0, j + 1);
        assert(w.drop_last() =~= items@.subrange(0, j as int));
        let e = items[j].py_eq(&v);
        hit = hit || e;
        j = j + 1;
    }
    assert(items@.subrange(0, items@.len() as int) =~= items@);
    if !hit {
        items.push(v);
    }
    Ok(())
}

/// The value of a set literal whose items evaluated to `values`, in
/// order: duplicates are dropped; an unhashable item is an error.
pub fn set_literal(items: Vec<PyValue>) -> (r: Result<PyValue, PyErr>)
    ensures
        match set_items_of(items@) {
            Some(s) => r matches Ok(PyValue::SetValue(v)) && v@ == s,
            None => r matches Err(e) && e.0@ == "TypeError: "@ + "unhashable type"@,
        },
{
    let ghost all = items@;
    let mut values = items;
    let mut out: Vec<PyValue> = Vec::new();
    let mut k: usize = 0;
    let n = values.len();
    assert(all.subrange(0, 0) =~= Seq::<PyValue>::empty());
    while values.len() > 0
        invariant
            n == all.len(),
            all == items@,
            k <= n,
            values@ == all.skip(k as int),
            set_items_of(all.subrange(0, k as int)) == Some(out@),
        decreases values@.len(),
    {
        assert(k < n);
        let v = values.remove(0);
        let ghost cur = all.subrange(0, k + 1);
        assert(cur.drop_last() =~= all.subrange(0, k as int));
        assert(v == all[k as int]);
        assert(all.skip(k as int).skip(1) =~= all.skip(k + 1));
        assert(cur.last() == v);
        let ghost prev_out = out@;
        let ghost gv = v;
        match set_add(&mut out, v) {
            Err(e) => {
                proof {
                    assert(!value_hashable(gv));
                    assert(set_items_of(cur.drop_last()) == Some(prev_out));
                    assert(set_items_of(cur) is None);
                    lemma_set_items_none(all, k + 1);
                }
                return Err(e);
            },
            Ok(()) => {},
        }
        k = k + 1;
    }
    assert(all.subrange(0, n as int) =~= all);
    Ok(PyValue::SetValue(out))
}

proof fn lemma_set_items_none(s: Seq<PyValue>, k: int)
    requires
        0 < k <= s.len(),
        set_items_of(s.subrange(0, k)) is None,
    ensures
        set_items_of(s) is None,
    decreases s.len() - k,
{
    if k < s.len() {
        let t = s.subrange(0, k + 1);
        assert(t.drop_last() =~= s.subrange(0, k));
        lemma_set_items_none(s, k + 1);
    } else {
        assert(s.subrange(0, k) =~= s);
    }
}

} // verus!
