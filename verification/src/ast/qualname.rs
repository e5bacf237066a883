//! Qualified name resolution: the dotted name a call or an attribute
//! stands for once import aliases are applied (`utils.get_call_name`,
//! `_get_attr_qual_name`, `get_qual_attr`, `get_called_name`).

use vstd::prelude::*;
use rustc_hash::{FxBuildHasher, FxHashMap};
use crate::ast::expr::PyExpr;
use crate::text::{copy_string, push_char, push_str};

verus! {

/// Alias table: local name → imported qualified name.
pub type Aliases = FxHashMap<String, String>;

/// The names an alias table maps, by their text.
pub uninterp spec fn alias_table(m: std::collections::HashMap<String, String, FxBuildHasher>) -> Map<Seq<char>, Seq<char>>;

/// The table of no alias.
pub open spec fn no_aliases() -> Map<Seq<char>, Seq<char>> {
    Map::empty()
}

/// `FxHashMap::default()`: a table with no alias.
#[verifier::external_body]
pub(crate) fn aliases_new() -> (r: Aliases)
    ensures
        alias_table(r) == no_aliases(),
{
    FxHashMap::default()
}

/// `HashMap::get`: what the name `k` stands for, if it is an alias.
#[verifier::external_body]
fn alias_get<'a>(m: &'a Aliases, k: &str) -> (r: Option<&'a String>)
    ensures
        match r {
            Some(v) => alias_table(*m).contains_key(k@) && alias_table(*m)[k@] == v@,
            None => !alias_table(*m).contains_key(k@),
        },
{
    m.get(k)
}

/// `HashMap::insert`: `k` now stands for `v`, whatever it stood for.
#[verifier::external_body]
pub(crate) fn alias_insert(m: &mut Aliases, k: String, v: String)
    ensures
        alias_table(*final(m)) == alias_table(*old(m)).insert(k@, v@),
{
    m.insert(k, v);
}

/// What `k` stands for under the aliases `a`.
pub open spec fn resolved(a: Map<Seq<char>, Seq<char>>, k: Seq<char>) -> Seq<char> {
    if a.contains_key(k) {
        a[k]
    } else {
        k
    }
}

/// `_get_attr_qual_name(node, aliases)`: the dotted name of a chain of
/// attributes over a name, each prefix resolved through the aliases; empty
/// for other expressions.
pub open spec fn attr_qual_name_spec(e: PyExpr, a: Map<Seq<char>, Seq<char>>) -> Seq<char>
    decreases e,
{
    match e {
        PyExpr::Name(id) => resolved(a, id@),
        PyExpr::Attribute(v, attr) => resolved(a, attr_qual_name_spec(*v, a) + "."@ + attr@),
        _ => Seq::empty(),
    }
}

/// `get_call_name(node, aliases)`, on the callee of the call.
pub open spec fn call_name_spec(func: PyExpr, a: Map<Seq<char>, Seq<char>>) -> Seq<char> {
    match func {
        PyExpr::Name(id) => resolved(a, id@),
        PyExpr::Attribute(_, _) => attr_qual_name_spec(func, a),
        _ => Seq::empty(),
    }
}

/// `get_qual_attr(node, aliases)`: `prefix.attr` for an attribute, the
/// prefix being its resolved base name (empty when the base is not a
/// plain name); empty for other expressions.
pub open spec fn qual_attr_spec(e: PyExpr, a: Map<Seq<char>, Seq<char>>) -> Seq<char> {
    match e {
        PyExpr::Attribute(v, attr) => {
            let prefix = match *v {
                PyExpr::Name(id) => resolved(a, id@),
                _ => Seq::empty(),
            };
            prefix + "."@ + attr@
        },
        _ => Seq::empty(),
    }
}

/// `get_called_name(node)`, on the callee: the attribute or the name
/// called, empty otherwise.
pub open spec fn called_name_spec(func: PyExpr) -> Seq<char> {
    match func {
        PyExpr::Attribute(_, attr) => attr@,
        PyExpr::Name(id) => id@,
        _ => Seq::empty(),
    }
}

/// Replaces the contents of `buf` with what `k` stands for.
fn put_resolved(aliases: &Aliases, k: &str, buf: &mut String)
    ensures
        final(buf)@ == resolved(alias_table(*aliases), k@),
{
    *buf = String::new();
    match alias_get(aliases, k) {
        Some(v) => push_str(buf, v.as_str()),
        None => push_str(buf, k),
    }
}

/// `_get_attr_qual_name(node, aliases)` written into `buf`.
pub fn attr_qual_name_into(expr: &PyExpr, aliases: &Aliases, buf: &mut String)
    ensures
        final(buf)@ == attr_qual_name_spec(*expr, alias_table(*aliases)),
    decreases expr,
{
    match expr {
        PyExpr::Name(n) => {
            let mut t = String::new();
            put_resolved(aliases, n.as_str(), &mut t);
            *buf = t;
        },
        PyExpr::Attribute(v, attr) => {
            let ghost t = alias_table(*aliases);
            attr_qual_name_into(v, aliases, buf);
            let ghost base = buf@;
            assert(base == attr_qual_name_spec(**v, t));
            push_char(buf, '.');
            push_str(buf, attr.as_str());
            proof {
                reveal_strlit(".");
                assert("."@ =~= seq!['.']);
                assert(buf@ =~= base + "."@ + attr@);
                assert(attr_qual_name_spec(*expr, t) == resolved(t, base + "."@ + attr@));
            }
            match alias_get(aliases, buf.as_str()) {
                Some(x) => {
                    let y = copy_string(x);
                    *buf = y;
                },
                None => {},
            }
        },
        _ => {
            *buf = String::new();
        },
    }
}

/// `_get_attr_qual_name(node, aliases)`.
pub fn attr_qual_name(expr: &PyExpr, aliases: &Aliases) -> (r: String)
    ensures
        r@ == attr_qual_name_spec(*expr, alias_table(*aliases)),
{
    let mut buf = String::new();
    attr_qual_name_into(expr, aliases, &mut buf);
    buf
}

/// `get_call_name(node, aliases)` written into `buf`, `func` being the
/// callee of the call.
pub fn call_name_into(func: &PyExpr, aliases: &Aliases, buf: &mut String)
    ensures
        final(buf)@ == call_name_spec(*func, alias_table(*aliases)),
{
    match func {
        PyExpr::Name(n) => put_resolved(aliases, n.as_str(), buf),
        PyExpr::Attribute(_, _) => attr_qual_name_into(func, aliases, buf),
        _ => {
            *buf = String::new();
        },
    }
}

/// `get_call_name(node, aliases)`, `func` being the callee of the call.
pub fn call_name(func: &PyExpr, aliases: &Aliases) -> (r: String)
    ensures
        r@ == call_name_spec(*func, alias_table(*aliases)),
{
    let mut buf = String::new();
    call_name_into(func, aliases, &mut buf);
    buf
}

/// `get_qual_attr(node, aliases)`.
pub fn qual_attr(expr: &PyExpr, aliases: &Aliases) -> (r: String)
    ensures
        r@ == qual_attr_spec(*expr, alias_table(*aliases)),
{
    match expr {
        PyExpr::Attribute(v, attr) => {
            let mut s = String::new();
            match &**v {
                PyExpr::Name(n) => put_resolved(aliases, n.as_str(), &mut s),
                _ => {},
            }
            push_char(&mut s, '.');
            push_str(&mut s, attr.as_str());
            proof {
                reveal_strlit(".");
                assert("."@ =~= seq!['.']);
            }
            s
        },
        _ => String::new(),
    }
}

/// `get_called_name(node)`, `func` being the callee of the call.
pub fn called_name(func: &PyExpr) -> (r: &str)
    ensures
        r@ == called_name_spec(*func),
{
    match func {
        PyExpr::Attribute(_, attr) => attr.as_str(),
        PyExpr::Name(n) => n.as_str(),
        _ => {
            proof {
                reveal_strlit("");
            }
            ""
        },
    }
}

} // verus!
