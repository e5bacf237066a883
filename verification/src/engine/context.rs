//! The context handed to tests: where the node is, and what a call, a
//! function definition, a string or an import of it looks like
//! (`bandit/core/context.py`).

use vstd::prelude::*;
use crate::ast::expr::{arg_value, get_literal_value, keyword_value, literal_fails, literal_result, unhashable_text, PyExpr};
use crate::ast::literal::PyErr;
use crate::ast::positions::Pos;
use crate::ast::qualname::{alias_table, qual_attr, qual_attr_spec, Aliases};
use crate::ast::scope::Imports;
use crate::fx::{str_set, strset_contains, strset_items};
use crate::ast::value::{value_eq, PyValue};
use crate::engine::issue::LineRange;
use crate::engine::utils::{escaped_bytes_representation, escaped_representation};
use crate::pycompat::unicode_escape::{encode, encode_spec};
use crate::text::{contains_seq, copy_string, str_contains, str_eq, views_of};

verus! {

/// A keyword argument of a call: its name (`None` for `**kwargs`), its
/// value, and the line the value starts on.
#[derive(Debug)]
pub struct KeywordArg {
    pub arg: Option<String>,
    pub value: PyExpr,
    pub value_line: u32,
}

/// A call: its callee, positional arguments and keyword arguments.
#[derive(Debug)]
pub struct CallExpr {
    pub func: PyExpr,
    pub args: Vec<PyExpr>,
    pub keywords: Vec<KeywordArg>,
}

/// A function definition, as far as tests read it: the defaults of its
/// positional parameters, in order.
#[derive(Debug)]
pub struct FunctionDef {
    pub defaults: Vec<PyExpr>,
}

/// Whether the optional name `k` is `name`.
pub open spec fn key_is(k: Option<String>, name: Seq<char>) -> bool {
    k matches Some(x) && x@ == name
}

/// `call_keywords`: a Python dict keyed by keyword name (`None` for
/// `**kwargs`).
#[derive(Debug)]
pub struct Keywords(pub Vec<(Option<String>, PyValue)>);

/// The position of the entry for `name` that a dict lookup finds: the
/// last one (later duplicates win).
pub open spec fn last_entry(s: Seq<(Option<String>, PyValue)>, name: Seq<char>) -> Option<int>
    decreases s.len(),
{
    if s.len() == 0 {
        None
    } else if key_is(s.last().0, name) {
        Some(s.len() - 1)
    } else {
        last_entry(s.drop_last(), name)
    }
}

impl Keywords {
    /// `call_keywords[name]`, if present.
    pub fn get(&self, name: &str) -> (r: Option<&PyValue>)
        ensures
            match last_entry(self.0@, name@) {
                Some(i) => r == Some(&self.0@[i].1),
                None => r is None,
            },
    {
        let mut i: usize = self.0.len();
        assert(self.0@.subrange(0, i as int) =~= self.0@);
        while i > 0
            invariant
                i <= self.0@.len(),
                last_entry(self.0@.subrange(0, i as int), name@) == last_entry(self.0@, name@),
            decreases i,
        {
            let ghost u = self.0@.subrange(0, i as int);
            assert(u.drop_last() =~= self.0@.subrange(0, i - 1));
            let hit = match &self.0[i - 1].0 {
                Some(k) => str_eq(k.as_str(), name),
                None => false,
            };
            if hit {
                return Some(&self.0[i - 1].1);
            }
            i = i - 1;
        }
        None
    }

    /// `name in call_keywords`.
    pub fn contains(&self, name: &str) -> (r: bool)
        ensures
            r == (last_entry(self.0@, name@) is Some),
    {
        self.get(name).is_some()
    }

    /// `call_keywords.get(name, default)`.
    pub fn get_or<'b>(&'b self, name: &str, default: &'b PyValue) -> (r: &'b PyValue)
        ensures
            match last_entry(self.0@, name@) {
                Some(i) => r == &self.0@[i].1,
                None => r == default,
            },
    {
        match self.get(name) {
            Some(v) => v,
            None => default,
        }
    }
}

/// Whether `r` is what [`keyword_value`] gives for `e`.
pub open spec fn keyword_result(e: PyExpr, r: Result<PyValue, PyErr>) -> bool {
    match e {
        PyExpr::Attribute(_, a) => r matches Ok(PyValue::Str(t)) && t@ == a@,
        _ => literal_result(e, r),
    }
}

/// Whether the keyword value of `e` raises.
pub open spec fn keyword_fails(e: PyExpr) -> bool {
    !(e is Attribute) && literal_fails(e)
}

/// Whether one of the expressions raises as a keyword value.
pub open spec fn any_keyword_fails(es: Seq<PyExpr>) -> bool {
    exists|i: int| 0 <= i < es.len() && keyword_fails(#[trigger] es[i])
}

/// The values of keyword arguments.
pub open spec fn keyword_exprs(ks: Seq<KeywordArg>) -> Seq<PyExpr> {
    ks.map_values(|k: KeywordArg| k.value)
}

/// The position of the last keyword argument named `name`.
pub open spec fn last_keyword(ks: Seq<KeywordArg>, name: Seq<char>) -> Option<int>
    decreases ks.len(),
{
    if ks.len() == 0 {
        None
    } else if key_is(ks.last().arg, name) {
        Some(ks.len() - 1)
    } else {
        last_keyword(ks.drop_last(), name)
    }
}

/// The position of the first keyword argument named `name`.
pub open spec fn first_keyword(ks: Seq<KeywordArg>, name: Seq<char>) -> Option<int>
    decreases ks.len(),
{
    if ks.len() == 0 {
        None
    } else if key_is(ks[0].arg, name) {
        Some(0)
    } else {
        match first_keyword(ks.skip(1), name) {
            Some(i) => Some(i + 1),
            None => None,
        }
    }
}

/// `getattr(node, "attr", None) or _get_literal_value(node)` as a result.
pub open spec fn arg_result(e: PyExpr, r: Result<PyValue, PyErr>) -> bool {
    match e {
        PyExpr::Attribute(_, a) => if a@.len() > 0 {
            r matches Ok(PyValue::Str(t)) && t@ == a@
        } else {
            literal_result(e, r)
        },
        _ => literal_result(e, r),
    }
}

/// The keyword values of `es`, in order, or the error of the first that
/// raises.
fn keyword_values(es: &Vec<PyExpr>) -> (r: Result<Vec<PyValue>, PyErr>)
    ensures
        match r {
            Ok(vs) => !any_keyword_fails(es@) && vs@.len() == es@.len() && forall|i: int|
                0 <= i < es@.len() ==> keyword_result(#[trigger] es@[i], Ok(vs@[i])),
            Err(x) => any_keyword_fails(es@) && x.0@ == unhashable_text(),
        },
{
    let mut out: Vec<PyValue> = Vec::new();
    let mut i: usize = 0;
    while i < es.len()
        invariant
            i <= es@.len(),
            out@.len() == i,
            forall|j: int| 0 <= j < i ==> !keyword_fails(#[trigger] es@[j]),
            forall|j: int| 0 <= j < i ==> keyword_result(#[trigger] es@[j], Ok(out@[j])),
        decreases es@.len() - i,
    {
        match keyword_value(&es[i]) {
            Ok(v) => out.push(v),
            Err(x) => {
                assert(keyword_fails(es@[i as int]));
                return Err(x);
            },
        }
        i = i + 1;
    }
    Ok(out)
}

/// The context of the node under test.
pub struct Context<'w> {
    pub filename: String,
    /// `lineno`, `col_offset`, `end_col_offset` when the node has a
    /// position.
    pub pos: Option<Pos>,
    pub linerange: LineRange,
    pub call: Option<CallExpr>,
    pub function: Option<FunctionDef>,
    pub qualname: Option<String>,
    pub name: Option<String>,
    pub module: Option<String>,
    pub str_val: Option<String>,
    pub bytes_val: Option<Vec<u8>>,
    pub imports: &'w Imports,
    pub import_aliases: &'w Aliases,
}

/// The code points of a string.
pub open spec fn code_points(s: Seq<char>) -> Seq<u32> {
    s.map_values(|c: char| c as u32)
}

impl<'w> Context<'w> {
    /// `context["lineno"]` (absent for position-less nodes).
    pub fn lineno(&self) -> (r: Option<u32>)
        ensures
            r == match self.pos {
                Some(p) => Some(p.lineno),
                None => None::<u32>,
            },
    {
        match self.pos {
            Some(p) => Some(p.lineno),
            None => None,
        }
    }

    /// `context["col_offset"]`.
    pub fn col_offset(&self) -> (r: Option<u32>)
        ensures
            r == match self.pos {
                Some(p) => Some(p.col_offset),
                None => None::<u32>,
            },
    {
        match self.pos {
            Some(p) => Some(p.col_offset),
            None => None,
        }
    }

    /// `context.get("end_col_offset", 0)`.
    pub fn end_col_offset(&self) -> (r: u32)
        ensures
            r == match self.pos {
                Some(p) => p.end_col_offset,
                None => 0u32,
            },
    {
        match self.pos {
            Some(p) => p.end_col_offset,
            None => 0,
        }
    }

    /// `context.filename`.
    pub fn filename(&self) -> (r: &str)
        ensures
            r@ == self.filename@,
    {
        self.filename.as_str()
    }

    /// `call_args`: the values of the positional arguments (an attribute
    /// gives its name).
    pub fn call_args(&self) -> (r: Result<Vec<PyValue>, PyErr>)
        ensures
            match self.call {
                None => r matches Ok(v) && v@.len() == 0,
                Some(c) => match r {
                    Ok(vs) => !any_keyword_fails(c.args@) && vs@.len() == c.args@.len() && forall|i: int|
                        0 <= i < c.args@.len() ==> keyword_result(#[trigger] c.args@[i], Ok(vs@[i])),
                    Err(x) => any_keyword_fails(c.args@) && x.0@ == unhashable_text(),
                },
            },
    {
        match &self.call {
            Some(c) => keyword_values(&c.args),
            None => Ok(Vec::new()),
        }
    }

    /// `call_args_count`.
    pub fn call_args_count(&self) -> (r: Option<usize>)
        ensures
            match self.call {
                Some(c) => r == Some(c.args@.len() as usize),
                None => r is None,
            },
    {
        match &self.call {
            Some(c) => Some(c.args.len()),
            None => None,
        }
    }

    /// `call_function_name`.
    pub fn call_function_name(&self) -> (r: Option<&str>)
        ensures
            match self.name {
                Some(n) => r matches Some(x) && x@ == n@,
                None => r is None,
            },
    {
        match &self.name {
            Some(n) => Some(n.as_str()),
            None => None,
        }
    }

    /// `call_function_name_qual`.
    pub fn call_function_name_qual(&self) -> (r: Option<&str>)
        ensures
            match self.qualname {
                Some(n) => r matches Some(x) && x@ == n@,
                None => r is None,
            },
    {
        match &self.qualname {
            Some(n) => Some(n.as_str()),
            None => None,
        }
    }

    /// `call_keywords` (`None` when there is no call): each keyword's name
    /// and value, in order.
    pub fn call_keywords(&self) -> (r: Result<Option<Keywords>, PyErr>)
        ensures
            match self.call {
                None => r matches Ok(None),
                Some(c) => match r {
                    Ok(Some(k)) => !any_keyword_fails(keyword_exprs(c.keywords@)) && k.0@.len() == c.keywords@.len()
                        && forall|i: int| #![trigger k.0@[i]] 0 <= i < c.keywords@.len() ==> {
                            &&& opt_view(k.0@[i].0) == opt_view(c.keywords@[i].arg)
                            &&& keyword_result(c.keywords@[i].value, Ok(k.0@[i].1))
                        },
                    Ok(None) => false,
                    Err(x) => any_keyword_fails(keyword_exprs(c.keywords@)) && x.0@ == unhashable_text(),
                },
            },
    {
        let c = match &self.call {
            Some(c) => c,
            None => return Ok(None),
        };
        let mut out: Vec<(Option<String>, PyValue)> = Vec::new();
        let mut i: usize = 0;
        while i < c.keywords.len()
            invariant
                self.call == Some(*c),
                i <= c.keywords@.len(),
                out@.len() == i,
                forall|j: int| 0 <= j < i ==> !keyword_fails(#[trigger] c.keywords@[j].value),
                forall|j: int| #![trigger out@[j]] 0 <= j < i ==> {
                    &&& opt_view(out@[j].0) == opt_view(c.keywords@[j].arg)
                    &&& keyword_result(c.keywords@[j].value, Ok(out@[j].1))
                },
            decreases c.keywords@.len() - i,
        {
            let k = &c.keywords[i];
            match keyword_value(&k.value) {
                Ok(v) => {
                    let name = match &k.arg {
                        Some(a) => Some(copy_string(a)),
                        None => None,
                    };
                    out.push((name, v));
                },
                Err(x) => {
                    assert(keyword_exprs(c.keywords@)[i as int] == c.keywords@[i as int].value);
                    return Err(x);
                },
            }
            i = i + 1;
        }
        assert forall|j: int| 0 <= j < c.keywords@.len() implies !keyword_fails(#[trigger] keyword_exprs(c.keywords@)[j]) by {
            assert(keyword_exprs(c.keywords@)[j] == c.keywords@[j].value);
        }
        Ok(Some(Keywords(out)))
    }

    /// `get_call_arg_value(name)`: the value of the last keyword argument
    /// named `name`, if any.
    pub fn get_call_arg_value(&self, name: &str) -> (r: Result<Option<PyValue>, PyErr>)
        ensures
            match self.call {
                None => r matches Ok(None),
                Some(c) => if any_keyword_fails(keyword_exprs(c.keywords@)) {
                    r matches Err(x) && x.0@ == unhashable_text()
                } else {
                    match last_keyword(c.keywords@, name@) {
                        Some(i) => r matches Ok(Some(v)) && keyword_result(c.keywords@[i].value, Ok(v)),
                        None => r matches Ok(None),
                    }
                },
            },
    {
        let kws = match self.call_keywords() {
            Err(x) => return Err(x),
            Ok(None) => return Ok(None),
            Ok(Some(k)) => k,
        };
        let c = match &self.call {
            Some(c) => c,
            None => return Ok(None),
        };
        let mut i: usize = c.keywords.len();
        assert(c.keywords@.subrange(0, i as int) =~= c.keywords@);
        while i > 0
            invariant
                self.call == Some(*c),
                !any_keyword_fails(keyword_exprs(c.keywords@)),
                kws.0@.len() == c.keywords@.len(),
                forall|j: int| #![trigger kws.0@[j]] 0 <= j < c.keywords@.len() ==> keyword_result(c.keywords@[j].value, Ok(kws.0@[j].1)),
                i <= c.keywords@.len(),
                last_keyword(c.keywords@.subrange(0, i as int), name@) == last_keyword(c.keywords@, name@),
            decreases i,
        {
            let ghost u = c.keywords@.subrange(0, i as int);
            assert(u.drop_last() =~= c.keywords@.subrange(0, i - 1));
            let hit = match &c.keywords[i - 1].arg {
                Some(k) => str_eq(k.as_str(), name),
                None => false,
            };
            if hit {
                let mut entries = kws.0;
                let (_, v) = entries.remove(i - 1);
                return Ok(Some(v));
            }
            i = i - 1;
        }
        Ok(None)
    }

    /// `check_call_arg_value(name, values)`: `None` when the argument is
    /// absent (or its value is Python `None`), otherwise whether it equals
    /// one of `values`.
    pub fn check_call_arg_value(&self, name: &str, values: &Vec<PyValue>) -> (r: Result<Option<bool>, PyErr>)
        ensures
            match self.call {
                None => r matches Ok(None),
                Some(c) => if any_keyword_fails(keyword_exprs(c.keywords@)) {
                    r matches Err(x) && x.0@ == unhashable_text()
                } else {
                    match last_keyword(c.keywords@, name@) {
                        Some(i) => exists|v: PyValue| #[trigger] keyword_result(c.keywords@[i].value, Ok(v)) && if v is NoneValue {
                            r matches Ok(None)
                        } else {
                            r == Ok::<Option<bool>, PyErr>(Some(exists|j: int| 0 <= j < values@.len() && value_eq(v, #[trigger] values@[j])))
                        },
                        None => r matches Ok(None),
                    }
                },
            },
    {
        match self.get_call_arg_value(name) {
            Err(x) => Err(x),
            Ok(None) => Ok(None),
            Ok(Some(v)) => {
                if v.is_none() {
                    return Ok(None);
                }
                let mut hit = false;
                let mut j: usize = 0;
                while j < values.len()
                    invariant
                        j <= values@.len(),
                        hit == exists|k: int| 0 <= k < j && value_eq(v, #[trigger] values@[k]),
                    decreases values@.len() - j,
                {
                    if v.py_eq(&values[j]) {
                        hit = true;
                    }
                    j = j + 1;
                }
                Ok(Some(hit))
            },
        }
    }

    /// `check_call_arg_value(name, value)` with a single value.
    pub fn check_call_arg_is(&self, name: &str, value: PyValue) -> (r: Result<Option<bool>, PyErr>)
        ensures
            match self.call {
                None => r matches Ok(None),
                Some(c) => if any_keyword_fails(keyword_exprs(c.keywords@)) {
                    r matches Err(x) && x.0@ == unhashable_text()
                } else {
                    match last_keyword(c.keywords@, name@) {
                        Some(i) => exists|v: PyValue| #[trigger] keyword_result(c.keywords@[i].value, Ok(v)) && if v is NoneValue {
                            r matches Ok(None)
                        } else {
                            r == Ok::<Option<bool>, PyErr>(Some(value_eq(v, value)))
                        },
                        None => r matches Ok(None),
                    }
                },
            },
    {
        let ghost gv = value;
        let values = vec![value];
        assert(values@[0] == gv);
        self.check_call_arg_value(name, &values)
    }

    /// `get_lineno_for_call_arg(name)`: the line of the value of the first
    /// keyword argument named `name`.
    pub fn get_lineno_for_call_arg(&self, name: &str) -> (r: Option<u32>)
        ensures
            match self.call {
                None => r is None,
                Some(c) => match first_keyword(c.keywords@, name@) {
                    Some(i) => r == Some(c.keywords@[i].value_line),
                    None => r is None,
                },
            },
    {
        let c = match &self.call {
            Some(c) => c,
            None => return None,
        };
        let mut i: usize = 0;
        assert(c.keywords@.skip(0) =~= c.keywords@);
        while i < c.keywords.len()
            invariant
                self.call == Some(*c),
                i <= c.keywords@.len(),
                first_keyword(c.keywords@, name@) == match first_keyword(c.keywords@.skip(i as int), name@) {
                    Some(k) => Some(k + i),
                    None => None::<int>,
                },
            decreases c.keywords@.len() - i,
        {
            let ghost rest = c.keywords@.skip(i as int);
            assert(rest.skip(1) =~= c.keywords@.skip(i + 1));
            assert(rest[0] == c.keywords@[i as int]);
            let hit = match &c.keywords[i].arg {
                Some(k) => str_eq(k.as_str(), name),
                None => false,
            };
            if hit {
                return Some(c.keywords[i].value_line);
            }
            i = i + 1;
        }
        None
    }

    /// `get_call_arg_at_position(n)`: the value of positional argument
    /// `n`, if any (an attribute gives its name unless empty).
    pub fn get_call_arg_at_position(&self, n: usize) -> (r: Result<Option<PyValue>, PyErr>)
        ensures
            match self.call {
                None => r matches Ok(None),
                Some(c) => if n < c.args@.len() {
                    match r {
                        Ok(Some(v)) => arg_result(c.args@[n as int], Ok(v)),
                        Ok(None) => false,
                        Err(x) => arg_result(c.args@[n as int], Err(x)),
                    }
                } else {
                    r matches Ok(None)
                },
            },
    {
        let c = match &self.call {
            Some(c) => c,
            None => return Ok(None),
        };
        if n < c.args.len() {
            match arg_value(&c.args[n]) {
                Ok(v) => Ok(Some(v)),
                Err(x) => Err(x),
            }
        } else {
            Ok(None)
        }
    }

    /// The positional argument `n`, if any.
    pub fn call_arg_node(&self, n: usize) -> (r: Option<&PyExpr>)
        ensures
            match self.call {
                Some(c) => if n < c.args@.len() { r == Some(&c.args@[n as int]) } else { r is None },
                None => r is None,
            },
    {
        match &self.call {
            Some(c) => if n < c.args.len() {
                Some(&c.args[n])
            } else {
                None
            },
            None => None,
        }
    }

    /// `is_module_being_imported(module)`.
    pub fn is_module_being_imported(&self, module: &str) -> (r: bool)
        ensures
            r == (self.module matches Some(m) && m@ == module@),
    {
        match &self.module {
            Some(m) => str_eq(m.as_str(), module),
            None => false,
        }
    }

    /// `is_module_imported_exact(module)`.
    pub fn is_module_imported_exact(&self, module: &str) -> (r: bool)
        ensures
            r == str_set(*self.imports).contains(module@),
    {
        strset_contains(self.imports, module)
    }

    /// `is_module_imported_like(module)`: whether an import holds `module`.
    pub fn is_module_imported_like(&self, module: &str) -> (r: bool)
        ensures
            r == exists|imp: Seq<char>| str_set(*self.imports).contains(imp) && #[trigger] contains_seq(imp, module@),
    {
        let items = strset_items(self.imports);
        let mut i: usize = 0;
        while i < items.len()
            invariant
                i <= items@.len(),
                forall|x: Seq<char>| views_of(items@).contains(x) <==> str_set(*self.imports).contains(x),
                forall|j: int| 0 <= j < i ==> !contains_seq(#[trigger] items@[j]@, module@),
            decreases items@.len() - i,
        {
            if str_contains(items[i].as_str(), module) {
                assert(views_of(items@)[i as int] == items@[i as int]@);
                assert(views_of(items@).contains(items@[i as int]@));
                return true;
            }
            i = i + 1;
        }
        assert forall|imp: Seq<char>| str_set(*self.imports).contains(imp) implies !#[trigger] contains_seq(imp, module@) by {
            assert(views_of(items@).contains(imp));
            let j = choose|j: int| 0 <= j < views_of(items@).len() && views_of(items@)[j] == imp;
            assert(items@[j]@ == imp);
        }
        false
    }

    /// `string_val`.
    pub fn string_val(&self) -> (r: Option<&str>)
        ensures
            match self.str_val {
                Some(s) => r matches Some(x) && x@ == s@,
                None => r is None,
            },
    {
        match &self.str_val {
            Some(s) => Some(s.as_str()),
            None => None,
        }
    }

    /// `bytes_val`.
    pub fn bytes_val(&self) -> (r: Option<&Vec<u8>>)
        ensures
            match self.bytes_val {
                Some(b) => r == Some(&b),
                None => r is None,
            },
    {
        match &self.bytes_val {
            Some(b) => Some(b),
            None => None,
        }
    }

    /// `string_val_as_escaped_bytes`: a string encoded with the
    /// `unicode_escape` codec, else the bytes decoded with it and encoded
    /// again (`None` when they do not decode).
    pub fn string_val_as_escaped_bytes(&self) -> (r: Option<Vec<u8>>)
        ensures
            match self.str_val {
                Some(s) => r matches Some(b) && b@ == encode_spec(code_points(s@)),
                None => match self.bytes_val {
                    Some(b) => match escaped_representation(b@) {
                        Some(e) => r matches Some(x) && x@ == e,
                        None => r is None,
                    },
                    None => r is None,
                },
            },
    {
        if let Some(s) = &self.str_val {
            let mut cps: Vec<u32> = Vec::new();
            let n = s.unicode_len();
            let mut i: usize = 0;
            while i < n
                invariant
                    n == s@.len(),
                    i <= n,
                    cps@ =~= code_points(s@).subrange(0, i as int),
                decreases n - i,
            {
                let c = s.as_str().get_char(i);
                cps.push(c as u32);
                i = i + 1;
            }
            assert(cps@ =~= code_points(s@));
            return Some(encode(cps.as_slice()));
        }
        match &self.bytes_val {
            Some(b) => match escaped_bytes_representation(b.as_slice()) {
                Ok(e) => Some(e),
                Err(_) => None,
            },
            None => None,
        }
    }

    /// `function_def_defaults_qual`: the qualified attribute name of each
    /// default of the function's positional parameters (empty for other
    /// expressions).
    pub fn function_def_defaults_qual(&self) -> (r: Vec<String>)
        ensures
            match self.function {
                Some(f) => r@.len() == f.defaults@.len() && forall|i: int| 0 <= i < f.defaults@.len()
                    ==> #[trigger] r@[i]@ == qual_attr_spec(f.defaults@[i], alias_table(*self.import_aliases)),
                None => r@.len() == 0,
            },
    {
        let mut out: Vec<String> = Vec::new();
        match &self.function {
            Some(f) => {
                let mut i: usize = 0;
                while i < f.defaults.len()
                    invariant
                        i <= f.defaults@.len(),
                        out@.len() == i,
                        forall|j: int| 0 <= j < i ==> #[trigger] out@[j]@ == qual_attr_spec(f.defaults@[j], alias_table(*self.import_aliases)),
                    decreases f.defaults@.len() - i,
                {
                    out.push(qual_attr(&f.defaults[i], self.import_aliases));
                    i = i + 1;
                }
            },
            None => {},
        }
        out
    }

    /// `_get_literal_value(expr)`.
    pub fn literal_value(&self, expr: &PyExpr) -> (r: Result<PyValue, PyErr>)
        ensures
            literal_result(*expr, r),
    {
        get_literal_value(expr)
    }
}

/// The text of an optional name.
pub open spec fn opt_view(o: Option<String>) -> Option<Seq<char>> {
    match o {
        Some(s) => Some(s@),
        None => None,
    }
}

} // verus!
