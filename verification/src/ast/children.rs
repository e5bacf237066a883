//! The children of a node in the order CPython's `ast.iter_fields` yields
//! them, each with its next sibling in the same list field (what the walk
//! records as `_bandit_sibling`).

use vstd::prelude::*;
use crate::ast::tree::{DictItem, ElifElse, Param, PyNode};
use crate::ast::vnode::VNode;

verus! {

/// A child and its next sibling within the same list field.
#[derive(Debug, Clone, Copy)]
pub struct Child<'a> {
    pub node: VNode<'a>,
    pub sibling: Option<VNode<'a>>,
}

/// A list field: each node with the next one as its sibling.
pub open spec fn listed<'a>(v: Seq<VNode<'a>>) -> Seq<Child<'a>> {
    Seq::new(
        v.len(),
        |i: int| Child { node: v[i], sibling: if i + 1 < v.len() { Some(v[i + 1]) } else { None } },
    )
}

/// Slot `i` of a list field whose slots may be empty: its node, if any,
/// with the next slot, present or not, as its sibling.
pub open spec fn slot_child<'a>(v: Seq<Option<VNode<'a>>>, i: int) -> Seq<Child<'a>> {
    match v[i] {
        Some(n) => seq![Child { node: n, sibling: if i + 1 < v.len() { v[i + 1] } else { None } }],
        None => Seq::empty(),
    }
}

/// The first `k` slots of a list field whose slots may be empty.
pub open spec fn slotted_upto<'a>(v: Seq<Option<VNode<'a>>>, k: int) -> Seq<Child<'a>>
    decreases k,
{
    if k <= 0 {
        Seq::empty()
    } else {
        slotted_upto(v, k - 1) + slot_child(v, k - 1)
    }
}

/// A list field whose slots may be empty.
pub open spec fn slotted<'a>(v: Seq<Option<VNode<'a>>>) -> Seq<Child<'a>> {
    slotted_upto(v, v.len() as int)
}

/// The nodes of a list.
pub open spec fn refs<'a>(v: Seq<PyNode>) -> Seq<VNode<'a>> {
    Seq::new(v.len(), |i: int| VNode::Node(&v[i]))
}

/// A single field.
pub open spec fn single<'a>(n: VNode<'a>) -> Seq<Child<'a>> {
    seq![Child { node: n, sibling: None }]
}

/// An optional field.
pub open spec fn optional<'a>(o: Option<Box<PyNode>>) -> Seq<Child<'a>> {
    match o {
        Some(b) => single(VNode::Node(&*b)),
        None => Seq::empty(),
    }
}

/// Appends each node of `v` with its sibling.
fn push_refs<'a>(out: &mut Vec<Child<'a>>, v: &Vec<VNode<'a>>)
    ensures
        final(out)@ == old(out)@ + listed(v@),
{
    let ghost start = out@;
    let n = v.len();
    let mut i: usize = 0;
    while i < n
        invariant
            n == v@.len(),
            i <= n,
            out@ == start + listed(v@).subrange(0, i as int),
        decreases n - i,
    {
        let sibling = if i + 1 < n { Some(v[i + 1]) } else { None };
        out.push(Child { node: v[i], sibling });
        assert(listed(v@).subrange(0, i + 1) =~= listed(v@).subrange(0, i as int).push(listed(v@)[i as int]));
        i = i + 1;
    }
    assert(listed(v@).subrange(0, n as int) =~= listed(v@));
}

/// The nodes of a list, by reference.
fn node_refs<'a>(v: &'a Vec<PyNode>) -> (r: Vec<VNode<'a>>)
    ensures
        r@ == refs(v@),
{
    let mut r: Vec<VNode<'a>> = Vec::new();
    let mut i: usize = 0;
    while i < v.len()
        invariant
            i <= v@.len(),
            r@ == refs(v@).subrange(0, i as int),
        decreases v@.len() - i,
    {
        r.push(VNode::Node(&v[i]));
        assert(refs(v@).subrange(0, i + 1) =~= refs(v@).subrange(0, i as int).push(refs(v@)[i as int]));
        i = i + 1;
    }
    assert(refs(v@).subrange(0, v@.len() as int) =~= refs(v@));
    r
}

/// Appends a list field.
fn push_list<'a>(out: &mut Vec<Child<'a>>, v: &'a Vec<PyNode>)
    ensures
        final(out)@ == old(out)@ + listed(refs(v@)),
{
    let r = node_refs(v);
    push_refs(out, &r);
}

/// Appends a single field.
fn push_single<'a>(out: &mut Vec<Child<'a>>, n: VNode<'a>)
    ensures
        final(out)@ == old(out)@ + single(n),
{
    out.push(Child { node: n, sibling: None });
    assert(final(out)@ =~= old(out)@ + single(n));
}

/// Appends an optional field.
fn push_opt<'a>(out: &mut Vec<Child<'a>>, o: &'a Option<Box<PyNode>>)
    ensures
        final(out)@ == old(out)@ + optional(*o),
{
    match o {
        Some(b) => push_single(out, VNode::Node(&**b)),
        None => {
            assert(final(out)@ =~= old(out)@ + optional(*o));
        },
    }
}

/// Appends a list field whose slots may be empty.
fn push_slots<'a>(out: &mut Vec<Child<'a>>, v: &Vec<Option<VNode<'a>>>)
    ensures
        final(out)@ == old(out)@ + slotted(v@),
{
    let ghost start = out@;
    let n = v.len();
    let mut i: usize = 0;
    while i < n
        invariant
            n == v@.len(),
            i <= n,
            out@ == start + slotted_upto(v@, i as int),
        decreases n - i,
    {
        let ghost before = out@;
        match v[i] {
            Some(node) => {
                let sibling = if i + 1 < n { v[i + 1] } else { None };
                out.push(Child { node, sibling });
            },
            None => {},
        }
        assert(out@ =~= before + slot_child(v@, i as int));
        i = i + 1;
    }
}

/// An optional node field.
pub open spec fn optional_node<'a>(o: Option<PyNode>) -> Seq<Child<'a>> {
    match o {
        Some(n) => single(VNode::Node(&n)),
        None => Seq::empty(),
    }
}

/// Appends an optional node field.
fn push_opt_node<'a>(out: &mut Vec<Child<'a>>, o: &'a Option<PyNode>)
    ensures
        final(out)@ == old(out)@ + optional_node(*o),
{
    match o {
        Some(n) => push_single(out, VNode::Node(n)),
        None => {
            assert(final(out)@ =~= old(out)@ + optional_node(*o));
        },
    }
}

/// An optional list field (type parameters, the values of an f-string).
pub open spec fn optional_list<'a>(o: Option<Vec<PyNode>>) -> Seq<Child<'a>> {
    match o {
        Some(v) => listed(refs(v@)),
        None => Seq::empty(),
    }
}

/// Appends an optional list field.
fn push_opt_list<'a>(out: &mut Vec<Child<'a>>, o: &'a Option<Vec<PyNode>>)
    ensures
        final(out)@ == old(out)@ + optional_list(*o),
{
    match o {
        Some(v) => push_list(out, v),
        None => {
            assert(final(out)@ =~= old(out)@ + optional_list(*o));
        },
    }
}

/// The `arg` nodes of parameters.
pub open spec fn param_args<'a>(p: Seq<Param>) -> Seq<VNode<'a>> {
    Seq::new(p.len(), |i: int| VNode::Node(&p[i].arg))
}

/// The default values of parameters that have one, in order.
pub open spec fn param_defaults<'a>(p: Seq<Param>) -> Seq<VNode<'a>>
    decreases p.len(),
{
    if p.len() == 0 {
        Seq::empty()
    } else {
        param_defaults(p.drop_last()) + match p.last().default {
            Some(d) => seq![VNode::Node(&d)],
            None => Seq::empty(),
        }
    }
}

/// The default slots of parameters, present or not.
pub open spec fn default_slots<'a>(p: Seq<Param>) -> Seq<Option<VNode<'a>>> {
    Seq::new(
        p.len(),
        |i: int| match p[i].default {
            Some(d) => Some(VNode::Node(&d)),
            None => None,
        },
    )
}

/// The `arg` nodes of parameters, by reference.
fn arg_refs<'a>(p: &'a Vec<Param>) -> (r: Vec<VNode<'a>>)
    ensures
        r@ == param_args(p@),
{
    let mut r: Vec<VNode<'a>> = Vec::new();
    let mut i: usize = 0;
    while i < p.len()
        invariant
            i <= p@.len(),
            r@ == param_args(p@).subrange(0, i as int),
        decreases p@.len() - i,
    {
        r.push(VNode::Node(&p[i].arg));
        assert(param_args(p@).subrange(0, i + 1) =~= param_args(p@).subrange(0, i as int).push(param_args(p@)[i as int]));
        i = i + 1;
    }
    assert(param_args(p@).subrange(0, p@.len() as int) =~= param_args(p@));
    r
}

/// Appends the defaults of parameters to `r`.
fn push_defaults<'a>(r: &mut Vec<VNode<'a>>, p: &'a Vec<Param>)
    ensures
        final(r)@ == old(r)@ + param_defaults(p@),
{
    let ghost start = r@;
    let mut i: usize = 0;
    while i < p.len()
        invariant
            i <= p@.len(),
            r@ == start + param_defaults(p@.subrange(0, i as int)),
        decreases p@.len() - i,
    {
        let ghost before = r@;
        match &p[i].default {
            Some(d) => r.push(VNode::Node(d)),
            None => {},
        }
        assert(p@.subrange(0, i + 1).drop_last() =~= p@.subrange(0, i as int));
        assert(r@ =~= start + param_defaults(p@.subrange(0, i + 1)));
        i = i + 1;
    }
    assert(p@.subrange(0, p@.len() as int) =~= p@);
}

/// The default slots of parameters, by reference.
fn default_slot_refs<'a>(p: &'a Vec<Param>) -> (r: Vec<Option<VNode<'a>>>)
    ensures
        r@ == default_slots(p@),
{
    let mut r: Vec<Option<VNode<'a>>> = Vec::new();
    let mut i: usize = 0;
    while i < p.len()
        invariant
            i <= p@.len(),
            r@ == default_slots(p@).subrange(0, i as int),
        decreases p@.len() - i,
    {
        match &p[i].default {
            Some(d) => r.push(Some(VNode::Node(d))),
            None => r.push(None),
        }
        assert(default_slots(p@).subrange(0, i + 1) =~= default_slots(p@).subrange(0, i as int).push(default_slots(p@)[i as int]));
        i = i + 1;
    }
    assert(default_slots(p@).subrange(0, p@.len() as int) =~= default_slots(p@));
    r
}

/// The key slots of a dictionary display (`**` entries have none).
pub open spec fn dict_keys<'a>(items: Seq<DictItem>) -> Seq<Option<VNode<'a>>> {
    Seq::new(
        items.len(),
        |i: int| match items[i].key {
            Some(k) => Some(VNode::Node(&k)),
            None => None,
        },
    )
}

/// The values of a dictionary display.
pub open spec fn dict_values<'a>(items: Seq<DictItem>) -> Seq<VNode<'a>> {
    Seq::new(items.len(), |i: int| VNode::Node(&items[i].value))
}

/// The key slots and the values of a dictionary display, by reference.
fn dict_refs<'a>(items: &'a Vec<DictItem>) -> (r: (Vec<Option<VNode<'a>>>, Vec<VNode<'a>>))
    ensures
        r.0@ == dict_keys(items@),
        r.1@ == dict_values(items@),
{
    let mut keys: Vec<Option<VNode<'a>>> = Vec::new();
    let mut values: Vec<VNode<'a>> = Vec::new();
    let mut i: usize = 0;
    while i < items.len()
        invariant
            i <= items@.len(),
            keys@ == dict_keys(items@).subrange(0, i as int),
            values@ == dict_values(items@).subrange(0, i as int),
        decreases items@.len() - i,
    {
        match &items[i].key {
            Some(k) => keys.push(Some(VNode::Node(k))),
            None => keys.push(None),
        }
        values.push(VNode::Node(&items[i].value));
        assert(dict_keys(items@).subrange(0, i + 1) =~= dict_keys(items@).subrange(0, i as int).push(dict_keys(items@)[i as int]));
        assert(dict_values(items@).subrange(0, i + 1) =~= dict_values(items@).subrange(0, i as int).push(dict_values(items@)[i as int]));
        i = i + 1;
    }
    assert(dict_keys(items@).subrange(0, items@.len() as int) =~= dict_keys(items@));
    assert(dict_values(items@).subrange(0, items@.len() as int) =~= dict_values(items@));
    (keys, values)
}

/// A list field of nodes.
pub open spec fn nodes<'a>(v: Vec<PyNode>) -> Seq<Child<'a>> {
    listed(refs(v@))
}

/// A field holding one node.
pub open spec fn one<'a>(b: Box<PyNode>) -> Seq<Child<'a>> {
    single(VNode::Node(&*b))
}

/// The `orelse` of the `if` statement `stmt` from clause `next` on: an
/// `elif` is one nested `If`, a final `else` gives its statements.
pub open spec fn if_orelse<'a>(stmt: &'a PyNode, clauses: Seq<ElifElse>, next: int) -> Seq<Child<'a>> {
    if 0 <= next < clauses.len() {
        match clauses[next].test {
            Some(_) => single(VNode::Elif(stmt, next as usize)),
            None => listed(refs(clauses[next].body@)),
        }
    } else {
        Seq::empty()
    }
}

/// The `arguments` of the lambda `p`: an empty one where it has no
/// parameters.
pub open spec fn lambda_args<'a>(p: &'a PyNode, args: Option<Box<PyNode>>) -> Seq<Child<'a>> {
    match args {
        Some(a) => one(a),
        None => single(VNode::EmptyArguments(p)),
    }
}

/// The children of a node of the tree, in CPython's field order.
pub open spec fn node_children<'a>(p: &'a PyNode) -> Seq<Child<'a>> {
    match *p {
        PyNode::Module { body } => nodes(body),
        PyNode::FunctionDef { args, body, decorators, return_annotation, type_params, .. } => one(args) + nodes(body) + nodes(decorators) + optional(return_annotation) + optional_list(type_params),
        PyNode::ClassDef { bases, keywords, body, decorators, type_params, .. } => nodes(bases) + nodes(keywords) + nodes(body) + nodes(decorators) + optional_list(type_params),
        PyNode::Return { value } => optional(value),
        PyNode::Delete { targets } => nodes(targets),
        PyNode::TypeAlias { name, type_params, value } => one(name) + optional_list(type_params) + one(value),
        PyNode::Assign { targets, value } => nodes(targets) + one(value),
        PyNode::AugAssign { target, value } => one(target) + one(value),
        PyNode::AnnAssign { target, annotation, value } => one(target) + one(annotation) + optional(value),
        PyNode::For { target, iter, body, orelse, .. } => one(target) + one(iter) + nodes(body) + nodes(orelse),
        PyNode::While { test, body, orelse } => one(test) + nodes(body) + nodes(orelse),
        PyNode::If { test, body, clauses } => one(test) + nodes(body) + if_orelse(p, clauses@, 0),
        PyNode::With { items, body, .. } => nodes(items) + nodes(body),
        PyNode::Match { subject, cases } => one(subject) + nodes(cases),
        PyNode::Raise { exc, cause } => optional(exc) + optional(cause),
        PyNode::Try { body, handlers, orelse, finalbody, .. } => nodes(body) + nodes(handlers) + nodes(orelse) + nodes(finalbody),
        PyNode::Assert { test, msg } => one(test) + optional(msg),
        PyNode::Import { names, .. } => nodes(names),
        PyNode::ImportFrom { names, .. } => nodes(names),
        PyNode::Expr { value } => one(value),
        PyNode::BoolOp { values } => nodes(values),
        PyNode::NamedExpr { target, value } => one(target) + one(value),
        PyNode::BinOp { left, right } => one(left) + one(right),
        PyNode::UnaryOp { operand } => one(operand),
        PyNode::Lambda { args, body } => lambda_args(p, args) + one(body),
        PyNode::IfExp { test, body, orelse } => one(test) + one(body) + one(orelse),
        PyNode::Dict { items } => slotted(dict_keys(items@)) + listed(dict_values(items@)),
        PyNode::SetDisplay { elts } => nodes(elts),
        PyNode::ListComp { elt, generators } => one(elt) + nodes(generators),
        PyNode::SetComp { elt, generators } => one(elt) + nodes(generators),
        PyNode::DictComp { key, value, generators } => optional(key) + one(value) + nodes(generators),
        PyNode::GeneratorExp { elt, generators } => one(elt) + nodes(generators),
        PyNode::Await { value } => one(value),
        PyNode::Yield { value } => optional(value),
        PyNode::YieldFrom { value } => one(value),
        PyNode::Compare { left, comparators } => one(left) + nodes(comparators),
        PyNode::Call { func, args, keywords, .. } => one(func) + nodes(args) + nodes(keywords),
        PyNode::JoinedStr { values, .. } => optional_list(values),
        PyNode::Attribute { value } => one(value),
        PyNode::Subscript { value, slice } => one(value) + one(slice),
        PyNode::Starred { value } => one(value),
        PyNode::List { elts } => nodes(elts),
        PyNode::Tuple { elts } => nodes(elts),
        PyNode::Slice { lower, upper, step } => optional(lower) + optional(upper) + optional(step),
        PyNode::ExceptHandler { type_, body } => optional(type_) + nodes(body),
        PyNode::Arguments { posonlyargs, args, vararg, kwonlyargs, kwarg } => listed(param_args(posonlyargs@))
            + listed(param_args(args@)) + optional(vararg) + listed(param_args(kwonlyargs@))
            + slotted(default_slots(kwonlyargs@)) + optional(kwarg)
            + listed(param_defaults(posonlyargs@) + param_defaults(args@)),
        PyNode::Arg { annotation } => optional(annotation),
        PyNode::Keyword { value } => one(value),
        PyNode::WithItem { context_expr, optional_vars } => one(context_expr) + optional(optional_vars),
        PyNode::Comprehension { target, iter, ifs } => one(target) + one(iter) + nodes(ifs),
        PyNode::MatchCase { pattern, guard, body } => one(pattern) + optional(guard) + nodes(body),
        PyNode::MatchValue { value } => one(value),
        PyNode::MatchSequence { patterns } => nodes(patterns),
        PyNode::MatchMapping { keys, patterns } => nodes(keys) + nodes(patterns),
        PyNode::MatchClass { cls, patterns, kwd_patterns } => one(cls) + nodes(patterns) + nodes(kwd_patterns),
        PyNode::MatchAs { pattern } => optional(pattern),
        PyNode::MatchOr { patterns } => nodes(patterns),
        PyNode::TypeVar { bound, default } => optional(bound) + optional(default),
        PyNode::ParamSpec { default } => optional(default),
        PyNode::TypeVarTuple { default } => optional(default),
        PyNode::FormattedValue { value, spec, .. } => one(value) + optional(spec),
        PyNode::FormatSpec { values } => nodes(values),
        PyNode::Global => Seq::empty(),
        PyNode::Nonlocal => Seq::empty(),
        PyNode::Pass => Seq::empty(),
        PyNode::Break => Seq::empty(),
        PyNode::Continue => Seq::empty(),
        PyNode::IpyEscapeCommand => Seq::empty(),
        PyNode::StrConst { .. } => Seq::empty(),
        PyNode::BytesConst { .. } => Seq::empty(),
        PyNode::Constant => Seq::empty(),
        PyNode::Name => Seq::empty(),
        PyNode::Alias => Seq::empty(),
        PyNode::MatchSingleton => Seq::empty(),
        PyNode::MatchStar => Seq::empty(),
        PyNode::JoinedConst { .. } => Seq::empty(),
    }
}

/// The children of a visited node, in CPython's field order: an `elif`
/// clause gives its test, its statements and the clauses after it.
pub open spec fn cpython_children<'a>(n: VNode<'a>) -> Seq<Child<'a>> {
    match n {
        VNode::Node(p) => node_children(p),
        VNode::Elif(stmt, idx) => match *stmt {
            PyNode::If { clauses, .. } => if idx < clauses@.len() {
                optional_node(clauses@[idx as int].test) + nodes(clauses@[idx as int].body)
                    + if_orelse(stmt, clauses@, idx + 1)
            } else {
                Seq::empty()
            },
            _ => Seq::empty(),
        },
        VNode::EmptyArguments(_) => Seq::empty(),
    }
}

/// Appends the `orelse` of the `if` statement `stmt` from clause `next` on.
fn push_if_orelse<'a>(out: &mut Vec<Child<'a>>, stmt: &'a PyNode, clauses: &'a Vec<ElifElse>, next: usize)
    ensures
        final(out)@ == old(out)@ + if_orelse(stmt, clauses@, next as int),
{
    if next < clauses.len() {
        match &clauses[next].test {
            Some(_) => push_single(out, VNode::Elif(stmt, next)),
            None => push_list(out, &clauses[next].body),
        }
    } else {
        assert(final(out)@ =~= old(out)@ + if_orelse(stmt, clauses@, next as int));
    }
}

/// Appends the children of `node` to `out` in CPython's field order.
#[verifier::rlimit(100)]
pub fn push_children<'a>(node: VNode<'a>, out: &mut Vec<Child<'a>>)
    ensures
        final(out)@ == old(out)@ + cpython_children(node),
{
    let ghost start = out@;
    match node {
        VNode::Node(p) => match p {
            PyNode::Module { body } => {
                push_list(out, body);
            },
            PyNode::FunctionDef { args, body, decorators, return_annotation, type_params, .. } => {
                push_single(out, VNode::Node(&**args));
                push_list(out, body);
                push_list(out, decorators);
                push_opt(out, return_annotation);
                push_opt_list(out, type_params);
            },
            PyNode::ClassDef { bases, keywords, body, decorators, type_params, .. } => {
                push_list(out, bases);
                push_list(out, keywords);
                push_list(out, body);
                push_list(out, decorators);
                push_opt_list(out, type_params);
            },
            PyNode::Return { value } => {
                push_opt(out, value);
            },
            PyNode::Delete { targets } => {
                push_list(out, targets);
            },
            PyNode::TypeAlias { name, type_params, value } => {
                push_single(out, VNode::Node(&**name));
                push_opt_list(out, type_params);
                push_single(out, VNode::Node(&**value));
            },
            PyNode::Assign { targets, value } => {
                push_list(out, targets);
                push_single(out, VNode::Node(&**value));
            },
            PyNode::AugAssign { target, value } => {
                push_single(out, VNode::Node(&**target));
                push_single(out, VNode::Node(&**value));
            },
            PyNode::AnnAssign { target, annotation, value } => {
                push_single(out, VNode::Node(&**target));
                push_single(out, VNode::Node(&**annotation));
                push_opt(out, value);
            },
            PyNode::For { target, iter, body, orelse, .. } => {
                push_single(out, VNode::Node(&**target));
                push_single(out, VNode::Node(&**iter));
                push_list(out, body);
                push_list(out, orelse);
            },
            PyNode::While { test, body, orelse } => {
                push_single(out, VNode::Node(&**test));
                push_list(out, body);
                push_list(out, orelse);
            },
            PyNode::If { test, body, clauses } => {
                push_single(out, VNode::Node(&**test));
                push_list(out, body);
                push_if_orelse(out, p, clauses, 0);
            },
            PyNode::With { items, body, .. } => {
                push_list(out, items);
                push_list(out, body);
            },
            PyNode::Match { subject, cases } => {
                push_single(out, VNode::Node(&**subject));
                push_list(out, cases);
            },
            PyNode::Raise { exc, cause } => {
                push_opt(out, exc);
                push_opt(out, cause);
            },
            PyNode::Try { body, handlers, orelse, finalbody, .. } => {
                push_list(out, body);
                push_list(out, handlers);
                push_list(out, orelse);
                push_list(out, finalbody);
            },
            PyNode::Assert { test, msg } => {
                push_single(out, VNode::Node(&**test));
                push_opt(out, msg);
            },
            PyNode::Import { names, .. } => {
                push_list(out, names);
            },
            PyNode::ImportFrom { names, .. } => {
                push_list(out, names);
            },
            PyNode::Expr { value } => {
                push_single(out, VNode::Node(&**value));
            },
            PyNode::BoolOp { values } => {
                push_list(out, values);
            },
            PyNode::NamedExpr { target, value } => {
                push_single(out, VNode::Node(&**target));
                push_single(out, VNode::Node(&**value));
            },
            PyNode::BinOp { left, right } => {
                push_single(out, VNode::Node(&**left));
                push_single(out, VNode::Node(&**right));
            },
            PyNode::UnaryOp { operand } => {
                push_single(out, VNode::Node(&**operand));
            },
            PyNode::Lambda { args, body } => {
                match args {
                    Some(a) => push_single(out, VNode::Node(&**a)),
                    None => push_single(out, VNode::EmptyArguments(p)),
                }
                push_single(out, VNode::Node(&**body));
            },
            PyNode::IfExp { test, body, orelse } => {
                push_single(out, VNode::Node(&**test));
                push_single(out, VNode::Node(&**body));
                push_single(out, VNode::Node(&**orelse));
            },
            PyNode::Dict { items } => {
                let (keys, values) = dict_refs(items);
                push_slots(out, &keys);
                push_refs(out, &values);
            },
            PyNode::SetDisplay { elts } => {
                push_list(out, elts);
            },
            PyNode::ListComp { elt, generators } => {
                push_single(out, VNode::Node(&**elt));
                push_list(out, generators);
            },
            PyNode::SetComp { elt, generators } => {
                push_single(out, VNode::Node(&**elt));
                push_list(out, generators);
            },
            PyNode::DictComp { key, value, generators } => {
                push_opt(out, key);
                push_single(out, VNode::Node(&**value));
                push_list(out, generators);
            },
            PyNode::GeneratorExp { elt, generators } => {
                push_single(out, VNode::Node(&**elt));
                push_list(out, generators);
            },
            PyNode::Await { value } => {
                push_single(out, VNode::Node(&**value));
            },
            PyNode::Yield { value } => {
                push_opt(out, value);
            },
            PyNode::YieldFrom { value } => {
                push_single(out, VNode::Node(&**value));
            },
            PyNode::Compare { left, comparators } => {
                push_single(out, VNode::Node(&**left));
                push_list(out, comparators);
            },
            PyNode::Call { func, args, keywords, .. } => {
                push_single(out, VNode::Node(&**func));
                push_list(out, args);
                push_list(out, keywords);
            },
            PyNode::JoinedStr { values, .. } => {
                push_opt_list(out, values);
            },
            PyNode::Attribute { value } => {
                push_single(out, VNode::Node(&**value));
            },
            PyNode::Subscript { value, slice } => {
                push_single(out, VNode::Node(&**value));
                push_single(out, VNode::Node(&**slice));
            },
            PyNode::Starred { value } => {
                push_single(out, VNode::Node(&**value));
            },
            PyNode::List { elts } => {
                push_list(out, elts);
            },
            PyNode::Tuple { elts } => {
                push_list(out, elts);
            },
            PyNode::Slice { lower, upper, step } => {
                push_opt(out, lower);
                push_opt(out, upper);
                push_opt(out, step);
            },
            PyNode::ExceptHandler { type_, body } => {
                push_opt(out, type_);
                push_list(out, body);
            },
            PyNode::Arguments { posonlyargs, args, vararg, kwonlyargs, kwarg } => {
                push_refs(out, &arg_refs(posonlyargs));
                push_refs(out, &arg_refs(args));
                push_opt(out, vararg);
                push_refs(out, &arg_refs(kwonlyargs));
                push_slots(out, &default_slot_refs(kwonlyargs));
                push_opt(out, kwarg);
                let mut defaults: Vec<VNode<'a>> = Vec::new();
                push_defaults(&mut defaults, posonlyargs);
                push_defaults(&mut defaults, args);
                push_refs(out, &defaults);
            },
            PyNode::Arg { annotation } => {
                push_opt(out, annotation);
            },
            PyNode::Keyword { value } => {
                push_single(out, VNode::Node(&**value));
            },
            PyNode::WithItem { context_expr, optional_vars } => {
                push_single(out, VNode::Node(&**context_expr));
                push_opt(out, optional_vars);
            },
            PyNode::Comprehension { target, iter, ifs } => {
                push_single(out, VNode::Node(&**target));
                push_single(out, VNode::Node(&**iter));
                push_list(out, ifs);
            },
            PyNode::MatchCase { pattern, guard, body } => {
                push_single(out, VNode::Node(&**pattern));
                push_opt(out, guard);
                push_list(out, body);
            },
            PyNode::MatchValue { value } => {
                push_single(out, VNode::Node(&**value));
            },
            PyNode::MatchSequence { patterns } => {
                push_list(out, patterns);
            },
            PyNode::MatchMapping { keys, patterns } => {
                push_list(out, keys);
                push_list(out, patterns);
            },
            PyNode::MatchClass { cls, patterns, kwd_patterns } => {
                push_single(out, VNode::Node(&**cls));
                push_list(out, patterns);
                push_list(out, kwd_patterns);
            },
            PyNode::MatchAs { pattern } => {
                push_opt(out, pattern);
            },
            PyNode::MatchOr { patterns } => {
                push_list(out, patterns);
            },
            PyNode::TypeVar { bound, default } => {
                push_opt(out, bound);
                push_opt(out, default);
            },
            PyNode::ParamSpec { default } => {
                push_opt(out, default);
            },
            PyNode::TypeVarTuple { default } => {
                push_opt(out, default);
            },
            PyNode::FormattedValue { value, spec, .. } => {
                push_single(out, VNode::Node(&**value));
                push_opt(out, spec);
            },
            PyNode::FormatSpec { values } => {
                push_list(out, values);
            },
            PyNode::Global => {},
            PyNode::Nonlocal => {},
            PyNode::Pass => {},
            PyNode::Break => {},
            PyNode::Continue => {},
            PyNode::IpyEscapeCommand => {},
            PyNode::StrConst { .. } => {},
            PyNode::BytesConst { .. } => {},
            PyNode::Constant => {},
            PyNode::Name => {},
            PyNode::Alias => {},
            PyNode::MatchSingleton => {},
            PyNode::MatchStar => {},
            PyNode::JoinedConst { .. } => {},
        },
        VNode::Elif(stmt, idx) => match stmt {
            PyNode::If { clauses, .. } => if idx < clauses.len() {
                push_opt_node(out, &clauses[idx].test);
                push_list(out, &clauses[idx].body);
                push_if_orelse(out, stmt, clauses, idx + 1);
            },
            _ => {},
        },
        VNode::EmptyArguments(_) => {},
    }
    assert(out@ =~= start + cpython_children(node));
}

/// The children of `node`, in CPython's field order.
pub fn children<'a>(node: VNode<'a>) -> (r: Vec<Child<'a>>)
    ensures
        r@ == cpython_children(node),
{
    let mut out: Vec<Child<'a>> = Vec::new();
    push_children(node, &mut out);
    assert(out@ =~= cpython_children(node));
    out
}

} // verus!
