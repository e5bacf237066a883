//! Expressions as the tests read them: literals, names, attributes, and
//! everything else; their literal values (`_get_literal_value`) and the
//! values of call arguments.

use vstd::prelude::*;
use crate::ast::literal::PyErr;
use crate::ast::value::{
    items_hashable, set_add, set_items_of, value_hashable, DictRef, PyFloat, PyValue,
};
use crate::text::{copy_string, int_text_value, parse_i128, to_owned_string};

verus! {

/// An expression of the syntax tree, as far as the tests read it.
#[derive(Debug)]
pub enum PyExpr {
    /// A string literal (its parts joined).
    Str(String),
    /// A bytes literal (its parts joined).
    Bytes(Vec<u8>),
    /// An integer literal, by its decimal text.
    Int(String),
    Float(PyFloat),
    Complex(PyFloat, PyFloat),
    Bool(bool),
    /// The `None` constant.
    NoneLit,
    Ellipsis,
    List(Vec<PyExpr>),
    Tuple(Vec<PyExpr>),
    SetLit(Vec<PyExpr>),
    Dict(DictRef),
    Name(String),
    Attribute(Box<PyExpr>, String),
    /// Any other expression (a call, a subscript, an operation...).
    Other,
}

/// The text of the items of a dictionary literal.
pub open spec fn dict_items_view(s: Seq<(Option<String>, String)>) -> Seq<(Option<Seq<char>>, Seq<char>)> {
    s.map_values(
        |p: (Option<String>, String)|
            (
                match p.0 {
                    Some(k) => Some(k@),
                    None => None,
                },
                p.1@,
            ),
    )
}

/// Two floats with the same bits and the same text.
pub open spec fn same_float(a: PyFloat, b: PyFloat) -> bool {
    a.bits == b.bits && a.repr@ == b.repr@
}

/// The text of a literal integer: within `i128` it is an `int`, else it
/// is kept as its text.
pub open spec fn int_literal(text: Seq<char>, v: PyValue) -> bool {
    match int_text_value(text, true) {
        Some(n) => if i128::MIN <= n <= i128::MAX {
            v == PyValue::Int(n as i128)
        } else {
            v matches PyValue::BigInt(t) && t@ == text
        },
        None => v matches PyValue::BigInt(t) && t@ == text,
    }
}

/// Whether evaluating the literal `e` raises: only a set with an
/// unhashable item does, also when nested.
pub open spec fn literal_fails(e: PyExpr) -> bool
    decreases e, 0nat,
{
    match e {
        PyExpr::List(items) => items_fail(items@),
        PyExpr::Tuple(items) => items_fail(items@),
        PyExpr::SetLit(items) => items_fail(items@) || !items_literal_hashable(items@),
        _ => false,
    }
}

/// Whether evaluating one of the literals `s` raises.
pub open spec fn items_fail(s: Seq<PyExpr>) -> bool
    decreases s, 1nat,
{
    if s.len() == 0 {
        false
    } else {
        items_fail(s.drop_last()) || literal_fails(s.last())
    }
}

/// Whether the value of the literal `e` can go in a set.
pub open spec fn literal_hashable(e: PyExpr) -> bool
    decreases e, 0nat,
{
    match e {
        PyExpr::List(_) | PyExpr::SetLit(_) | PyExpr::Dict(_) => false,
        PyExpr::Tuple(items) => items_literal_hashable(items@),
        _ => true,
    }
}

/// Whether the values of the literals `s` can all go in a set.
pub open spec fn items_literal_hashable(s: Seq<PyExpr>) -> bool
    decreases s, 1nat,
{
    if s.len() == 0 {
        true
    } else {
        items_literal_hashable(s.drop_last()) && literal_hashable(s.last())
    }
}

/// Whether `v` is the value of the literal `e` (`_get_literal_value`),
/// for an `e` whose evaluation does not raise: strings, bytes and numbers
/// give themselves, booleans and `None` their names, names their
/// identifier, containers the values of their items (a set without
/// duplicates), other expressions `None`.
pub open spec fn literal_of(e: PyExpr, v: PyValue) -> bool
    decreases e, 0nat,
{
    match e {
        PyExpr::Str(s) => v matches PyValue::Str(t) && t@ == s@,
        PyExpr::Bytes(b) => v matches PyValue::Bytes(c) && c@ == b@,
        PyExpr::Int(text) => int_literal(text@, v),
        PyExpr::Float(f) => v matches PyValue::Float(g) && same_float(f, g),
        PyExpr::Complex(a, b) => v matches PyValue::Complex(c, d) && same_float(a, c) && same_float(b, d),
        PyExpr::Bool(b) => v matches PyValue::Str(t) && t@ == (if b { "True"@ } else { "False"@ }),
        PyExpr::NoneLit => v matches PyValue::Str(t) && t@ == "None"@,
        PyExpr::Ellipsis => v is Ellipsis,
        PyExpr::List(items) => v matches PyValue::List(vs) && literals_of(items@, vs@),
        PyExpr::Tuple(items) => v matches PyValue::Tuple(vs) && literals_of(items@, vs@),
        PyExpr::SetLit(items) => v matches PyValue::SetValue(vs) && exists|ws: Seq<PyValue>|
            literals_of(items@, ws) && set_items_of(ws) == Some(vs@),
        PyExpr::Dict(d) => v matches PyValue::Dict(d2) && d2.id == d.id && dict_items_view(d2.items@)
            == dict_items_view(d.items@),
        PyExpr::Name(id) => v matches PyValue::Str(t) && t@ == id@,
        PyExpr::Attribute(_, _) | PyExpr::Other => v is NoneValue,
    }
}

/// Whether `vs` are the values of the literals `es`, in order.
pub open spec fn literals_of(es: Seq<PyExpr>, vs: Seq<PyValue>) -> bool
    decreases es, 1nat,
{
    if es.len() == 0 {
        vs.len() == 0
    } else {
        vs.len() == es.len() && literals_of(es.drop_last(), vs.drop_last()) && literal_of(es.last(), vs.last())
    }
}

/// The value of a literal can go in a set exactly when the literal says
/// so.
pub proof fn lemma_literal_hashable(e: PyExpr, v: PyValue)
    requires
        literal_of(e, v),
    ensures
        value_hashable(v) == literal_hashable(e),
    decreases e, 0nat,
{
    match e {
        PyExpr::Tuple(items) => {
            let vs = v->Tuple_0@;
            assert(decreases_to!(e => e->Tuple_0));
            assert(decreases_to!(items => items@));
            lemma_items_literal_hashable(items@, vs);
        },
        _ => {},
    }
}

/// The values of literals can all go in a set exactly when the literals
/// say so.
pub proof fn lemma_items_literal_hashable(es: Seq<PyExpr>, vs: Seq<PyValue>)
    requires
        literals_of(es, vs),
    ensures
        items_hashable(vs) == items_literal_hashable(es),
    decreases es, 1nat,
{
    if es.len() > 0 {
        assert(decreases_to!(es => es.drop_last())) by {
            assert(es.drop_last() =~= es.subrange(0, es.len() - 1));
        }
        lemma_items_literal_hashable(es.drop_last(), vs.drop_last());
        assert(decreases_to!(es => es[es.len() - 1]));
        lemma_literal_hashable(es.last(), vs.last());
    }
}

/// The error of a literal that raises.
pub open spec fn unhashable_text() -> Seq<char> {
    "TypeError: "@ + "unhashable type"@
}

pub(crate) fn copy_float(f: &PyFloat) -> (r: PyFloat)
    ensures
        same_float(*f, r),
{
    PyFloat { bits: f.bits, repr: copy_string(&f.repr) }
}

pub(crate) fn copy_dict(d: &DictRef) -> (r: DictRef)
    ensures
        r.id == d.id,
        dict_items_view(r.items@) == dict_items_view(d.items@),
{
    let mut items: Vec<(Option<String>, String)> = Vec::new();
    let mut i: usize = 0;
    while i < d.items.len()
        invariant
            i <= d.items@.len(),
            dict_items_view(items@) =~= dict_items_view(d.items@).subrange(0, i as int),
        decreases d.items@.len() - i,
    {
        let k = match &d.items[i].0 {
            Some(s) => Some(copy_string(s)),
            None => None,
        };
        let ghost b = items@;
        items.push((k, copy_string(&d.items[i].1)));
        assert(dict_items_view(items@) =~= dict_items_view(b).push(dict_items_view(d.items@)[i as int]));
        i = i + 1;
    }
    DictRef { id: d.id, items }
}

/// Whether `r` is what evaluating the literal `e` gives.
pub open spec fn literal_result(e: PyExpr, r: Result<PyValue, PyErr>) -> bool {
    match r {
        Ok(v) => !literal_fails(e) && literal_of(e, v),
        Err(x) => literal_fails(e) && x.0@ == unhashable_text(),
    }
}

/// The values of the literals `items`, or the error of the first that
/// raises.
fn literal_values(items: &Vec<PyExpr>, Ghost(whole): Ghost<PyExpr>) -> (r: Result<Vec<PyValue>, PyErr>)
    requires
        decreases_to!(whole => items@),
    ensures
        match r {
            Ok(vs) => !items_fail(items@) && literals_of(items@, vs@),
            Err(x) => items_fail(items@) && x.0@ == unhashable_text(),
        },
    decreases whole, 1nat,
{
    let mut out: Vec<PyValue> = Vec::new();
    let mut i: usize = 0;
    while i < items.len()
        invariant
            i <= items@.len(),
            decreases_to!(whole => items@),
            !items_fail(items@.subrange(0, i as int)),
            literals_of(items@.subrange(0, i as int), out@),
        decreases items@.len() - i,
    {
        let ghost u = items@.subrange(0, i + 1);
        assert(u.drop_last() =~= items@.subrange(0, i as int));
        assert(u.last() == items@[i as int]);
        proof {
            assert(decreases_to!(items@ => items@[i as int]));
        }
        match get_literal_value_under(&items[i], Ghost(whole)) {
            Ok(v) => {
                let ghost before = out@;
                out.push(v);
                assert(out@.drop_last() =~= before);
            },
            Err(x) => {
                proof {
                    lemma_items_fail_prefix(items@, i + 1);
                }
                return Err(x);
            },
        }
        i = i + 1;
    }
    assert(items@.subrange(0, items@.len() as int) =~= items@);
    Ok(out)
}

/// A literal list with a failing prefix fails.
proof fn lemma_items_fail_prefix(s: Seq<PyExpr>, k: int)
    requires
        0 < k <= s.len(),
        items_fail(s.subrange(0, k)),
    ensures
        items_fail(s),
    decreases s.len() - k,
{
    if k < s.len() {
        let t = s.subrange(0, k + 1);
        assert(t.drop_last() =~= s.subrange(0, k));
        lemma_items_fail_prefix(s, k + 1);
    } else {
        assert(s.subrange(0, k) =~= s);
    }
}

/// A literal list with an unhashable item in a prefix is not all hashable.
proof fn lemma_items_unhashable_prefix(s: Seq<PyExpr>, k: int)
    requires
        0 < k <= s.len(),
        !items_literal_hashable(s.subrange(0, k)),
    ensures
        !items_literal_hashable(s),
    decreases s.len() - k,
{
    if k < s.len() {
        let t = s.subrange(0, k + 1);
        assert(t.drop_last() =~= s.subrange(0, k));
        lemma_items_unhashable_prefix(s, k + 1);
    } else {
        assert(s.subrange(0, k) =~= s);
    }
}

/// The value of a set literal's items: each evaluated in turn, an
/// unhashable one raises, duplicates are dropped.
fn set_values(items: &Vec<PyExpr>, Ghost(whole): Ghost<PyExpr>) -> (r: Result<Vec<PyValue>, PyErr>)
    requires
        decreases_to!(whole => items@),
    ensures
        match r {
            Ok(vs) => !items_fail(items@) && items_literal_hashable(items@) && exists|ws: Seq<PyValue>|
                literals_of(items@, ws) && set_items_of(ws) == Some(vs@),
            Err(x) => (items_fail(items@) || !items_literal_hashable(items@)) && x.0@ == unhashable_text(),
        },
    decreases whole, 1nat,
{
    let mut out: Vec<PyValue> = Vec::new();
    let ghost mut ws: Seq<PyValue> = Seq::empty();
    let mut i: usize = 0;
    while i < items.len()
        invariant
            i <= items@.len(),
            decreases_to!(whole => items@),
            !items_fail(items@.subrange(0, i as int)),
            items_literal_hashable(items@.subrange(0, i as int)),
            literals_of(items@.subrange(0, i as int), ws),
            set_items_of(ws) == Some(out@),
        decreases items@.len() - i,
    {
        let ghost u = items@.subrange(0, i + 1);
        assert(u.drop_last() =~= items@.subrange(0, i as int));
        assert(u.last() == items@[i as int]);
        proof {
            assert(decreases_to!(items@ => items@[i as int]));
        }
        match get_literal_value_under(&items[i], Ghost(whole)) {
            Ok(v) => {
                let ghost gv = v;
                let ghost prev_ws = ws;
                proof {
                    lemma_literal_hashable(items@[i as int], gv);
                    ws = ws.push(gv);
                    assert(ws.drop_last() =~= prev_ws);
                }
                match set_add(&mut out, v) {
                    Ok(()) => {},
                    Err(x) => {
                        proof {
                            lemma_items_unhashable_prefix(items@, i + 1);
                        }
                        return Err(x);
                    },
                }
            },
            Err(x) => {
                proof {
                    lemma_items_fail_prefix(items@, i + 1);
                }
                return Err(x);
            },
        }
        i = i + 1;
    }
    assert(items@.subrange(0, items@.len() as int) =~= items@);
    Ok(out)
}

/// [`get_literal_value`] of a part of `whole`.
fn get_literal_value_under(e: &PyExpr, Ghost(whole): Ghost<PyExpr>) -> (r: Result<PyValue, PyErr>)
    requires
        decreases_to!(whole => *e),
    ensures
        literal_result(*e, r),
    decreases whole, 0nat,
{
    get_literal_value_of(e)
}

fn get_literal_value_of(e: &PyExpr) -> (r: Result<PyValue, PyErr>)
    ensures
        literal_result(*e, r),
    decreases *e, 2nat,
{
    proof {
        reveal_strlit("True");
        reveal_strlit("False");
        reveal_strlit("None");
    }
    match e {
        PyExpr::Str(s) => Ok(PyValue::Str(copy_string(s))),
        PyExpr::Bytes(b) => {
            let mut c: Vec<u8> = Vec::new();
            let mut i: usize = 0;
            while i < b.len()
                invariant
                    i <= b@.len(),
                    c@ =~= b@.subrange(0, i as int),
                decreases b@.len() - i,
            {
                c.push(b[i]);
                i = i + 1;
            }
            assert(c@ =~= b@);
            Ok(PyValue::Bytes(c))
        },
        PyExpr::Int(text) => match parse_i128(text.as_str()) {
            Some(v) => Ok(PyValue::Int(v)),
            None => Ok(PyValue::BigInt(copy_string(text))),
        },
        PyExpr::Float(f) => Ok(PyValue::Float(copy_float(f))),
        PyExpr::Complex(a, b) => Ok(PyValue::Complex(copy_float(a), copy_float(b))),
        PyExpr::Bool(b) => if *b {
            Ok(PyValue::Str(to_owned_string("True")))
        } else {
            Ok(PyValue::Str(to_owned_string("False")))
        },
        PyExpr::NoneLit => Ok(PyValue::Str(to_owned_string("None"))),
        PyExpr::Ellipsis => Ok(PyValue::Ellipsis),
        PyExpr::List(items) => {
            proof {
                assert(decreases_to!(*e => (*e)->List_0));
                assert(decreases_to!(*items => items@));
            }
            match literal_values(items, Ghost(*e)) {
                Ok(vs) => Ok(PyValue::List(vs)),
                Err(x) => Err(x),
            }
        },
        PyExpr::Tuple(items) => {
            proof {
                assert(decreases_to!(*e => (*e)->Tuple_0));
                assert(decreases_to!(*items => items@));
            }
            match literal_values(items, Ghost(*e)) {
                Ok(vs) => Ok(PyValue::Tuple(vs)),
                Err(x) => Err(x),
            }
        },
        PyExpr::SetLit(items) => {
            proof {
                assert(decreases_to!(*e => (*e)->SetLit_0));
                assert(decreases_to!(*items => items@));
            }
            match set_values(items, Ghost(*e)) {
                Ok(vs) => Ok(PyValue::SetValue(vs)),
                Err(x) => Err(x),
            }
        },
        PyExpr::Dict(d) => Ok(PyValue::Dict(copy_dict(d))),
        PyExpr::Name(id) => Ok(PyValue::Str(copy_string(id))),
        PyExpr::Attribute(_, _) | PyExpr::Other => Ok(PyValue::NoneValue),
    }
}

/// `_get_literal_value(node)`.
pub fn get_literal_value(e: &PyExpr) -> (r: Result<PyValue, PyErr>)
    ensures
        literal_result(*e, r),
{
    get_literal_value_of(e)
}

} // verus!

verus! {

/// `node.attr if hasattr(node, "attr") else _get_literal_value(node)`:
/// the value of a keyword argument (an attribute gives its name, even an
/// empty one).
pub fn keyword_value(e: &PyExpr) -> (r: Result<PyValue, PyErr>)
    ensures
        match *e {
            PyExpr::Attribute(_, a) => r matches Ok(PyValue::Str(t)) && t@ == a@,
            _ => literal_result(*e, r),
        },
{
    match e {
        PyExpr::Attribute(_, a) => Ok(PyValue::Str(copy_string(a))),
        _ => get_literal_value(e),
    }
}

/// `getattr(node, "attr", None) or _get_literal_value(node)`: the value
/// of a positional argument (an attribute gives its name unless empty).
pub fn arg_value(e: &PyExpr) -> (r: Result<PyValue, PyErr>)
    ensures
        match *e {
            PyExpr::Attribute(_, a) => if a@.len() > 0 {
                r matches Ok(PyValue::Str(t)) && t@ == a@
            } else {
                literal_result(*e, r)
            },
            _ => literal_result(*e, r),
        },
{
    match e {
        PyExpr::Attribute(_, a) => if a.unicode_len() > 0 {
            Ok(PyValue::Str(copy_string(a)))
        } else {
            get_literal_value(e)
        },
        _ => get_literal_value(e),
    }
}

} // verus!
