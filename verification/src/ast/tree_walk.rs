//! The walk's view of a syntax tree: each node's facts, and its children in
//! the order [`push_children`] gives them.

use vstd::prelude::*;
use crate::ast::children::{
    cpython_children, default_slots, dict_keys, dict_values, if_orelse, lambda_args, listed, node_children, nodes, one,
    optional, optional_list, optional_node, param_args, param_defaults, slot_child, slotted, slotted_upto, children, Child,
};
use crate::ast::tree::{DictItem, ElifElse, Param, PyNode};
use crate::ast::vnode::VNode;
use crate::ast::expr::{copy_dict, copy_float, dict_items_view, same_float, PyExpr};
use crate::ast::scope::ImportName;
use crate::ast::visit::{NodeFacts, WalkTree};
use crate::engine::context::{CallExpr, KeywordArg};
use crate::text::copy_string;

verus! {

/// The node of the tree a visited node stands for or belongs to.
pub open spec fn root_of(v: VNode) -> PyNode {
    match v {
        VNode::Node(p) => *p,
        VNode::Elif(s, _) => *s,
        VNode::EmptyArguments(l) => *l,
    }
}

/// Orders the visited nodes that belong to one node of the tree: the
/// node itself, then its `elif` clauses, last an empty `arguments`.
pub open spec fn rank_of(v: VNode) -> nat {
    match v {
        VNode::Node(p) => match *p {
            PyNode::If { clauses, .. } => clauses@.len() + 1,
            _ => 1,
        },
        VNode::Elif(s, i) => match *s {
            PyNode::If { clauses, .. } => if i < clauses@.len() { (clauses@.len() - i) as nat } else { 0 },
            _ => 0,
        },
        VNode::EmptyArguments(_) => 0,
    }
}

/// Whether `c` comes strictly below `v`.
pub open spec fn below(v: VNode, c: VNode) -> bool {
    decreases_to!(root_of(v) => root_of(c)) || (root_of(c) == root_of(v) && rank_of(c) < rank_of(v))
}

/// Whether every node of `s` comes strictly below `v`.
pub open spec fn all_below<'a>(v: VNode<'a>, s: Seq<Child<'a>>) -> bool {
    forall|j: int| 0 <= j < s.len() ==> below(v, #[trigger] s[j].node)
}

proof fn lemma_cat<'a>(v: VNode<'a>, a: Seq<Child<'a>>, b: Seq<Child<'a>>)
    requires
        all_below(v, a),
        all_below(v, b),
    ensures
        all_below(v, a + b),
{
    assert forall|j: int| 0 <= j < (a + b).len() implies below(v, #[trigger] (a + b)[j].node) by {
        if j < a.len() {
            assert((a + b)[j] == a[j]);
        } else {
            assert((a + b)[j] == b[j - a.len()]);
        }
    }
}

proof fn lemma_empty<'a>(v: VNode<'a>)
    ensures
        all_below(v, Seq::<Child<'a>>::empty()),
{
}

proof fn lemma_nodes<'a>(v: VNode<'a>, x: Vec<PyNode>)
    requires
        decreases_to!(root_of(v) => x),
    ensures
        all_below(v, nodes(x)),
{
    assert forall|j: int| 0 <= j < nodes(x).len() implies below(v, #[trigger] nodes(x)[j].node) by {
        assert(decreases_to!(x => x@));
        assert(decreases_to!(x@ => x@[j]));
    }
}

proof fn lemma_one<'a>(v: VNode<'a>, b: Box<PyNode>)
    requires
        decreases_to!(root_of(v) => b),
    ensures
        all_below(v, one(b)),
{
}

proof fn lemma_optional<'a>(v: VNode<'a>, o: Option<Box<PyNode>>)
    requires
        decreases_to!(root_of(v) => o),
    ensures
        all_below(v, optional(o)),
{
    match o {
        Some(b) => {
            assert(decreases_to!(o => b));
        },
        None => {},
    }
}

proof fn lemma_optional_list<'a>(v: VNode<'a>, o: Option<Vec<PyNode>>)
    requires
        decreases_to!(root_of(v) => o),
    ensures
        all_below(v, optional_list(o)),
{
    match o {
        Some(x) => {
            assert(decreases_to!(o => x));
            lemma_nodes(v, x);
        },
        None => {},
    }
}

proof fn lemma_param_args<'a>(v: VNode<'a>, ps: Vec<Param>)
    requires
        decreases_to!(root_of(v) => ps),
    ensures
        all_below(v, listed(param_args(ps@))),
{
    assert forall|j: int| 0 <= j < listed(param_args(ps@)).len() implies below(v, #[trigger] listed(param_args(ps@))[j].node) by {
        assert(decreases_to!(ps => ps@));
        assert(decreases_to!(ps@ => ps@[j]));
        assert(decreases_to!(ps@[j] => ps@[j].arg));
    }
}

/// Every node of `param_defaults(ps)` is the default of one of `ps`.
proof fn lemma_defaults_from<'a>(v: VNode<'a>, x: Vec<Param>, ps: Seq<Param>)
    requires
        decreases_to!(root_of(v) => x),
        ps.len() <= x@.len(),
        ps == x@.subrange(0, ps.len() as int),
    ensures
        forall|j: int| 0 <= j < param_defaults(ps).len() ==> below(v, #[trigger] param_defaults(ps)[j]),
    decreases ps.len(),
{
    if ps.len() > 0 {
        let d = ps.drop_last();
        assert(d == x@.subrange(0, d.len() as int));
        lemma_defaults_from(v, x, d);
        let k = ps.len() - 1;
        assert(ps.last() == x@[k]);
        assert forall|j: int| 0 <= j < param_defaults(ps).len() implies below(v, #[trigger] param_defaults(ps)[j]) by {
            if j < param_defaults(d).len() {
                assert(param_defaults(ps)[j] == param_defaults(d)[j]);
            } else {
                assert(decreases_to!(x => x@));
                assert(decreases_to!(x@ => x@[k]));
                assert(decreases_to!(x@[k] => x@[k].default));
                match x@[k].default {
                    Some(dd) => {
                        assert(decreases_to!(x@[k].default => dd));
                    },
                    None => {},
                }
            }
        }
    }
}

proof fn lemma_param_defaults<'a>(v: VNode<'a>, a: Vec<Param>, b: Vec<Param>)
    requires
        decreases_to!(root_of(v) => a),
        decreases_to!(root_of(v) => b),
    ensures
        all_below(v, listed(param_defaults(a@) + param_defaults(b@))),
{
    assert(a@ == a@.subrange(0, a@.len() as int));
    assert(b@ == b@.subrange(0, b@.len() as int));
    lemma_defaults_from(v, a, a@);
    lemma_defaults_from(v, b, b@);
    let s = param_defaults(a@) + param_defaults(b@);
    assert forall|j: int| 0 <= j < listed(s).len() implies below(v, #[trigger] listed(s)[j].node) by {
        assert(listed(s)[j].node == s[j]);
        if j < param_defaults(a@).len() {
            assert(s[j] == param_defaults(a@)[j]);
        } else {
            assert(s[j] == param_defaults(b@)[j - param_defaults(a@).len()]);
        }
    }
}

proof fn lemma_slotted<'a>(v: VNode<'a>, s: Seq<Option<VNode<'a>>>, k: int)
    requires
        0 <= k <= s.len(),
        forall|i: int| 0 <= i < s.len() && (#[trigger] s[i]) is Some ==> below(v, s[i].unwrap()),
    ensures
        all_below(v, slotted_upto(s, k)),
    decreases k,
{
    if k > 0 {
        lemma_slotted(v, s, k - 1);
        lemma_cat(v, slotted_upto(s, k - 1), slot_child(s, k - 1));
    }
}

proof fn lemma_default_slots<'a>(v: VNode<'a>, ps: Vec<Param>)
    requires
        decreases_to!(root_of(v) => ps),
    ensures
        all_below(v, slotted(default_slots(ps@))),
{
    let s = default_slots(ps@);
    assert forall|i: int| 0 <= i < s.len() && (#[trigger] s[i]) is Some implies below(v, s[i].unwrap()) by {
        assert(decreases_to!(ps => ps@));
        assert(decreases_to!(ps@ => ps@[i]));
        assert(decreases_to!(ps@[i] => ps@[i].default));
        match ps@[i].default {
            Some(dd) => {
                assert(decreases_to!(ps@[i].default => dd));
            },
            None => {},
        }
    }
    lemma_slotted(v, s, s.len() as int);
}

proof fn lemma_dict<'a>(v: VNode<'a>, items: Vec<DictItem>)
    requires
        decreases_to!(root_of(v) => items),
    ensures
        all_below(v, slotted(dict_keys(items@)) + listed(dict_values(items@))),
{
    let s = dict_keys(items@);
    assert(decreases_to!(items => items@));
    assert forall|i: int| 0 <= i < s.len() && (#[trigger] s[i]) is Some implies below(v, s[i].unwrap()) by {
        assert(decreases_to!(items@ => items@[i]));
        assert(decreases_to!(items@[i] => items@[i].key));
        match items@[i].key {
            Some(kk) => {
                assert(decreases_to!(items@[i].key => kk));
            },
            None => {},
        }
    }
    lemma_slotted(v, s, s.len() as int);
    assert forall|j: int| 0 <= j < listed(dict_values(items@)).len() implies below(v, #[trigger] listed(dict_values(items@))[j].node) by {
        assert(decreases_to!(items@ => items@[j]));
        assert(decreases_to!(items@[j] => items@[j].value));
    }
    lemma_cat(v, slotted(s), listed(dict_values(items@)));
}

proof fn lemma_optional_node<'a>(v: VNode<'a>, o: Option<PyNode>)
    requires
        decreases_to!(root_of(v) => o),
    ensures
        all_below(v, optional_node(o)),
{
    match o {
        Some(n) => {
            assert(decreases_to!(o => n));
        },
        None => {},
    }
}

proof fn lemma_if_orelse<'a>(v: VNode<'a>, stmt: &'a PyNode, clauses: Vec<ElifElse>, next: int)
    requires
        root_of(v) == *stmt,
        *stmt is If,
        (*stmt)->If_clauses == clauses,
        0 <= next <= usize::MAX,
        rank_of(v) > clauses@.len() - next,
    ensures
        all_below(v, if_orelse(stmt, clauses@, next)),
{
    if next < clauses@.len() {
        match clauses@[next].test {
            Some(_) => {
                assert(rank_of(VNode::Elif(stmt, next as usize)) == clauses@.len() - next);
            },
            None => {
                assert(decreases_to!(*stmt => clauses));
                assert(decreases_to!(clauses => clauses@));
                assert(decreases_to!(clauses@ => clauses@[next]));
                assert(decreases_to!(clauses@[next] => clauses@[next].body));
                lemma_nodes(v, clauses@[next].body);
            },
        }
    }
}

proof fn lemma_lambda<'a>(v: VNode<'a>, p: &'a PyNode, args: Option<Box<PyNode>>)
    requires
        v == VNode::Node(p),
        decreases_to!(*p => args),
    ensures
        all_below(v, lambda_args(p, args)),
{
    match args {
        Some(a) => {
            assert(decreases_to!(args => a));
            lemma_one(v, a);
        },
        None => {},
    }
}

/// Each child of a node of the tree comes strictly below it.
proof fn lemma_node_below<'a>(v: VNode<'a>, p: &'a PyNode)
    requires
        v == VNode::Node(p),
    ensures
        all_below(v, node_children(p)),
{
    match *p {
        PyNode::Module { body } => {
            lemma_nodes(v, body);
        },
        PyNode::FunctionDef { args, body, decorators, return_annotation, type_params, .. } => {
            lemma_one(v, args);
            lemma_nodes(v, body);
            lemma_nodes(v, decorators);
            lemma_optional(v, return_annotation);
            lemma_optional_list(v, type_params);
            lemma_cat(v, one(args), nodes(body));
            lemma_cat(v, one(args) + nodes(body), nodes(decorators));
            lemma_cat(v, one(args) + nodes(body) + nodes(decorators), optional(return_annotation));
            lemma_cat(v, one(args) + nodes(body) + nodes(decorators) + optional(return_annotation), optional_list(type_params));
        },
        PyNode::ClassDef { bases, keywords, body, decorators, type_params, .. } => {
            lemma_nodes(v, bases);
            lemma_nodes(v, keywords);
            lemma_nodes(v, body);
            lemma_nodes(v, decorators);
            lemma_optional_list(v, type_params);
            lemma_cat(v, nodes(bases), nodes(keywords));
            lemma_cat(v, nodes(bases) + nodes(keywords), nodes(body));
            lemma_cat(v, nodes(bases) + nodes(keywords) + nodes(body), nodes(decorators));
            lemma_cat(v, nodes(bases) + nodes(keywords) + nodes(body) + nodes(decorators), optional_list(type_params));
        },
        PyNode::Return { value } => {
            lemma_optional(v, value);
        },
        PyNode::Delete { targets } => {
            lemma_nodes(v, targets);
        },
        PyNode::TypeAlias { name, type_params, value } => {
            lemma_one(v, name);
            lemma_optional_list(v, type_params);
            lemma_one(v, value);
            lemma_cat(v, one(name), optional_list(type_params));
            lemma_cat(v, one(name) + optional_list(type_params), one(value));
        },
        PyNode::Assign { targets, value } => {
            lemma_nodes(v, targets);
            lemma_one(v, value);
            lemma_cat(v, nodes(targets), one(value));
        },
        PyNode::AugAssign { target, value } => {
            lemma_one(v, target);
            lemma_one(v, value);
            lemma_cat(v, one(target), one(value));
        },
        PyNode::AnnAssign { target, annotation, value } => {
            lemma_one(v, target);
            lemma_one(v, annotation);
            lemma_optional(v, value);
            lemma_cat(v, one(target), one(annotation));
            lemma_cat(v, one(target) + one(annotation), optional(value));
        },
        PyNode::For { target, iter, body, orelse, .. } => {
            lemma_one(v, target);
            lemma_one(v, iter);
            lemma_nodes(v, body);
            lemma_nodes(v, orelse);
            lemma_cat(v, one(target), one(iter));
            lemma_cat(v, one(target) + one(iter), nodes(body));
            lemma_cat(v, one(target) + one(iter) + nodes(body), nodes(orelse));
        },
        PyNode::While { test, body, orelse } => {
            lemma_one(v, test);
            lemma_nodes(v, body);
            lemma_nodes(v, orelse);
            lemma_cat(v, one(test), nodes(body));
            lemma_cat(v, one(test) + nodes(body), nodes(orelse));
        },
        PyNode::If { test, body, clauses } => {
            lemma_one(v, test);
            lemma_nodes(v, body);
            lemma_if_orelse(v, p, clauses, 0);
            lemma_cat(v, one(test), nodes(body));
            lemma_cat(v, one(test) + nodes(body), if_orelse(p, clauses@, 0));
        },
        PyNode::With { items, body, .. } => {
            lemma_nodes(v, items);
            lemma_nodes(v, body);
            lemma_cat(v, nodes(items), nodes(body));
        },
        PyNode::Match { subject, cases } => {
            lemma_one(v, subject);
            lemma_nodes(v, cases);
            lemma_cat(v, one(subject), nodes(cases));
        },
        PyNode::Raise { exc, cause } => {
            lemma_optional(v, exc);
            lemma_optional(v, cause);
            lemma_cat(v, optional(exc), optional(cause));
        },
        PyNode::Try { body, handlers, orelse, finalbody, .. } => {
            lemma_nodes(v, body);
            lemma_nodes(v, handlers);
            lemma_nodes(v, orelse);
            lemma_nodes(v, finalbody);
            lemma_cat(v, nodes(body), nodes(handlers));
            lemma_cat(v, nodes(body) + nodes(handlers), nodes(orelse));
            lemma_cat(v, nodes(body) + nodes(handlers) + nodes(orelse), nodes(finalbody));
        },
        PyNode::Assert { test, msg } => {
            lemma_one(v, test);
            lemma_optional(v, msg);
            lemma_cat(v, one(test), optional(msg));
        },
        PyNode::Import { names, .. } => {
            lemma_nodes(v, names);
        },
        PyNode::ImportFrom { names, .. } => {
            lemma_nodes(v, names);
        },
        PyNode::Expr { value } => {
            lemma_one(v, value);
        },
        PyNode::BoolOp { values } => {
            lemma_nodes(v, values);
        },
        PyNode::NamedExpr { target, value } => {
            lemma_one(v, target);
            lemma_one(v, value);
            lemma_cat(v, one(target), one(value));
        },
        PyNode::BinOp { left, right } => {
            lemma_one(v, left);
            lemma_one(v, right);
            lemma_cat(v, one(left), one(right));
        },
        PyNode::UnaryOp { operand } => {
            lemma_one(v, operand);
        },
        PyNode::Lambda { args, body } => {
            lemma_lambda(v, p, args);
            lemma_one(v, body);
            lemma_cat(v, lambda_args(p, args), one(body));
        },
        PyNode::IfExp { test, body, orelse } => {
            lemma_one(v, test);
            lemma_one(v, body);
            lemma_one(v, orelse);
            lemma_cat(v, one(test), one(body));
            lemma_cat(v, one(test) + one(body), one(orelse));
        },
        PyNode::Dict { items } => {
            lemma_dict(v, items);
        },
        PyNode::SetDisplay { elts } => {
            lemma_nodes(v, elts);
        },
        PyNode::ListComp { elt, generators } => {
            lemma_one(v, elt);
            lemma_nodes(v, generators);
            lemma_cat(v, one(elt), nodes(generators));
        },
        PyNode::SetComp { elt, generators } => {
            lemma_one(v, elt);
            lemma_nodes(v, generators);
            lemma_cat(v, one(elt), nodes(generators));
        },
        PyNode::DictComp { key, value, generators } => {
            lemma_optional(v, key);
            lemma_one(v, value);
            lemma_nodes(v, generators);
            lemma_cat(v, optional(key), one(value));
            lemma_cat(v, optional(key) + one(value), nodes(generators));
        },
        PyNode::GeneratorExp { elt, generators } => {
            lemma_one(v, elt);
            lemma_nodes(v, generators);
            lemma_cat(v, one(elt), nodes(generators));
        },
        PyNode::Await { value } => {
            lemma_one(v, value);
        },
        PyNode::Yield { value } => {
            lemma_optional(v, value);
        },
        PyNode::YieldFrom { value } => {
            lemma_one(v, value);
        },
        PyNode::Compare { left, comparators } => {
            lemma_one(v, left);
            lemma_nodes(v, comparators);
            lemma_cat(v, one(left), nodes(comparators));
        },
        PyNode::Call { func, args, keywords, .. } => {
            lemma_one(v, func);
            lemma_nodes(v, args);
            lemma_nodes(v, keywords);
            lemma_cat(v, one(func), nodes(args));
            lemma_cat(v, one(func) + nodes(args), nodes(keywords));
        },
        PyNode::JoinedStr { values, .. } => {
            lemma_optional_list(v, values);
        },
        PyNode::Attribute { value } => {
            lemma_one(v, value);
        },
        PyNode::Subscript { value, slice } => {
            lemma_one(v, value);
            lemma_one(v, slice);
            lemma_cat(v, one(value), one(slice));
        },
        PyNode::Starred { value } => {
            lemma_one(v, value);
        },
        PyNode::List { elts } => {
            lemma_nodes(v, elts);
        },
        PyNode::Tuple { elts } => {
            lemma_nodes(v, elts);
        },
        PyNode::Slice { lower, upper, step } => {
            lemma_optional(v, lower);
            lemma_optional(v, upper);
            lemma_optional(v, step);
            lemma_cat(v, optional(lower), optional(upper));
            lemma_cat(v, optional(lower) + optional(upper), optional(step));
        },
        PyNode::ExceptHandler { type_, body } => {
            lemma_optional(v, type_);
            lemma_nodes(v, body);
            lemma_cat(v, optional(type_), nodes(body));
        },
        PyNode::Arguments { posonlyargs, args, vararg, kwonlyargs, kwarg } => {
            lemma_param_args(v, posonlyargs);
            lemma_param_args(v, args);
            lemma_optional(v, vararg);
            lemma_param_args(v, kwonlyargs);
            lemma_default_slots(v, kwonlyargs);
            lemma_optional(v, kwarg);
            lemma_param_defaults(v, posonlyargs, args);
            lemma_cat(v, listed(param_args(posonlyargs@)), listed(param_args(args@)));
            lemma_cat(v, listed(param_args(posonlyargs@)) + listed(param_args(args@)), optional(vararg));
            lemma_cat(v, listed(param_args(posonlyargs@)) + listed(param_args(args@)) + optional(vararg), listed(param_args(kwonlyargs@)));
            lemma_cat(v, listed(param_args(posonlyargs@)) + listed(param_args(args@)) + optional(vararg) + listed(param_args(kwonlyargs@)), slotted(default_slots(kwonlyargs@)));
            lemma_cat(v, listed(param_args(posonlyargs@)) + listed(param_args(args@)) + optional(vararg) + listed(param_args(kwonlyargs@)) + slotted(default_slots(kwonlyargs@)), optional(kwarg));
            lemma_cat(v, listed(param_args(posonlyargs@)) + listed(param_args(args@)) + optional(vararg) + listed(param_args(kwonlyargs@)) + slotted(default_slots(kwonlyargs@)) + optional(kwarg), listed(param_defaults(posonlyargs@) + param_defaults(args@)));
        },
        PyNode::Arg { annotation } => {
            lemma_optional(v, annotation);
        },
        PyNode::Keyword { value } => {
            lemma_one(v, value);
        },
        PyNode::WithItem { context_expr, optional_vars } => {
            lemma_one(v, context_expr);
            lemma_optional(v, optional_vars);
            lemma_cat(v, one(context_expr), optional(optional_vars));
        },
        PyNode::Comprehension { target, iter, ifs } => {
            lemma_one(v, target);
            lemma_one(v, iter);
            lemma_nodes(v, ifs);
            lemma_cat(v, one(target), one(iter));
            lemma_cat(v, one(target) + one(iter), nodes(ifs));
        },
        PyNode::MatchCase { pattern, guard, body } => {
            lemma_one(v, pattern);
            lemma_optional(v, guard);
            lemma_nodes(v, body);
            lemma_cat(v, one(pattern), optional(guard));
            lemma_cat(v, one(pattern) + optional(guard), nodes(body));
        },
        PyNode::MatchValue { value } => {
            lemma_one(v, value);
        },
        PyNode::MatchSequence { patterns } => {
            lemma_nodes(v, patterns);
        },
        PyNode::MatchMapping { keys, patterns } => {
            lemma_nodes(v, keys);
            lemma_nodes(v, patterns);
            lemma_cat(v, nodes(keys), nodes(patterns));
        },
        PyNode::MatchClass { cls, patterns, kwd_patterns } => {
            lemma_one(v, cls);
            lemma_nodes(v, patterns);
            lemma_nodes(v, kwd_patterns);
            lemma_cat(v, one(cls), nodes(patterns));
            lemma_cat(v, one(cls) + nodes(patterns), nodes(kwd_patterns));
        },
        PyNode::MatchAs { pattern } => {
            lemma_optional(v, pattern);
        },
        PyNode::MatchOr { patterns } => {
            lemma_nodes(v, patterns);
        },
        PyNode::TypeVar { bound, default } => {
            lemma_optional(v, bound);
            lemma_optional(v, default);
            lemma_cat(v, optional(bound), optional(default));
        },
        PyNode::ParamSpec { default } => {
            lemma_optional(v, default);
        },
        PyNode::TypeVarTuple { default } => {
            lemma_optional(v, default);
        },
        PyNode::FormattedValue { value, spec, .. } => {
            lemma_one(v, value);
            lemma_optional(v, spec);
            lemma_cat(v, one(value), optional(spec));
        },
        PyNode::FormatSpec { values } => {
            lemma_nodes(v, values);
        },
        PyNode::Global => {},
        PyNode::Nonlocal => {},
        PyNode::Pass => {},
        PyNode::Break => {},
        PyNode::Continue => {},
        PyNode::IpyEscapeCommand => {},
        PyNode::StrConst { .. } => {},
        PyNode::BytesConst { .. } => {},
        PyNode::Constant => {},
        PyNode::Name => {},
        PyNode::Alias => {},
        PyNode::MatchSingleton => {},
        PyNode::MatchStar => {},
        PyNode::JoinedConst { .. } => {},
    }
}

/// Whether the clauses of an `elif` clause's statement can be counted in
/// a `usize` (as those of a vector are).
pub open spec fn clauses_fit(v: VNode) -> bool {
    match v {
        VNode::Elif(s, _) => match *s {
            PyNode::If { clauses, .. } => clauses@.len() <= usize::MAX,
            _ => true,
        },
        _ => true,
    }
}

/// Each child of a visited node comes strictly below it.
pub proof fn lemma_children_below<'a>(v: VNode<'a>)
    requires
        clauses_fit(v),
    ensures
        all_below(v, cpython_children(v)),
{
    match v {
        VNode::Node(p) => lemma_node_below(v, p),
        VNode::Elif(stmt, idx) => match *stmt {
            PyNode::If { clauses, .. } => if idx < clauses@.len() {
                let c = clauses@[idx as int];
                assert(decreases_to!(*stmt => clauses));
                assert(decreases_to!(clauses => clauses@));
                assert(decreases_to!(clauses@ => c));
                assert(decreases_to!(c => c.test));
                assert(decreases_to!(c => c.body));
                lemma_optional_node(v, c.test);
                lemma_nodes(v, c.body);
                lemma_if_orelse(v, stmt, clauses, idx + 1);
                lemma_cat(v, optional_node(c.test), nodes(c.body));
                lemma_cat(v, optional_node(c.test) + nodes(c.body), if_orelse(stmt, clauses@, idx + 1));
            },
            _ => {},
        },
        VNode::EmptyArguments(_) => {},
    }
}

/// Whether `b` is a copy of the expression `a`: the same values, texts
/// compared by their characters.
pub open spec fn same_expr(a: PyExpr, b: PyExpr) -> bool
    decreases a, 0nat,
{
    match a {
        PyExpr::Str(x) => b matches PyExpr::Str(y) && y@ == x@,
        PyExpr::Bytes(x) => b matches PyExpr::Bytes(y) && y@ == x@,
        PyExpr::Int(x) => b matches PyExpr::Int(y) && y@ == x@,
        PyExpr::Float(x) => b matches PyExpr::Float(y) && same_float(x, y),
        PyExpr::Complex(x, z) => b matches PyExpr::Complex(y, w) && same_float(x, y) && same_float(z, w),
        PyExpr::Bool(x) => b == PyExpr::Bool(x),
        PyExpr::NoneLit => b is NoneLit,
        PyExpr::Ellipsis => b is Ellipsis,
        PyExpr::List(x) => b is List && same_exprs(x@, b->List_0@),
        PyExpr::Tuple(x) => b is Tuple && same_exprs(x@, b->Tuple_0@),
        PyExpr::SetLit(x) => b is SetLit && same_exprs(x@, b->SetLit_0@),
        PyExpr::Dict(d) => b matches PyExpr::Dict(e) && e.id == d.id && dict_items_view(e.items@) == dict_items_view(d.items@),
        PyExpr::Name(x) => b matches PyExpr::Name(y) && y@ == x@,
        PyExpr::Attribute(x, n) => b is Attribute && same_expr(*x, *b->Attribute_0) && b->Attribute_1@ == n@,
        PyExpr::Other => b is Other,
    }
}

/// Whether `b` is a copy of the expressions `a`.
pub open spec fn same_exprs(a: Seq<PyExpr>, b: Seq<PyExpr>) -> bool
    decreases a, 1nat,
{
    a.len() == b.len() && forall|i: int| 0 <= i < a.len() ==> same_expr(#[trigger] a[i], b[i])
}

/// A copy of an expression.
pub fn copy_expr(e: &PyExpr) -> (r: PyExpr)
    ensures
        same_expr(*e, r),
    decreases *e,
{
    match e {
        PyExpr::Str(x) => PyExpr::Str(copy_string(x)),
        PyExpr::Bytes(x) => PyExpr::Bytes(copy_bytes(x)),
        PyExpr::Int(x) => PyExpr::Int(copy_string(x)),
        PyExpr::Float(x) => PyExpr::Float(copy_float(x)),
        PyExpr::Complex(x, z) => PyExpr::Complex(copy_float(x), copy_float(z)),
        PyExpr::Bool(x) => PyExpr::Bool(*x),
        PyExpr::NoneLit => PyExpr::NoneLit,
        PyExpr::Ellipsis => PyExpr::Ellipsis,
        PyExpr::List(x) => {
            proof {
                assert(decreases_to!(*e => (*e)->List_0));
            }
            PyExpr::List(copy_exprs_under(x, Ghost(*e)))
        },
        PyExpr::Tuple(x) => {
            proof {
                assert(decreases_to!(*e => (*e)->Tuple_0));
            }
            PyExpr::Tuple(copy_exprs_under(x, Ghost(*e)))
        },
        PyExpr::SetLit(x) => {
            proof {
                assert(decreases_to!(*e => (*e)->SetLit_0));
            }
            PyExpr::SetLit(copy_exprs_under(x, Ghost(*e)))
        },
        PyExpr::Dict(d) => PyExpr::Dict(copy_dict(d)),
        PyExpr::Name(x) => PyExpr::Name(copy_string(x)),
        PyExpr::Attribute(x, n) => {
            proof {
                assert(decreases_to!(*e => (*e)->Attribute_0));
            }
            PyExpr::Attribute(Box::new(copy_expr(x)), copy_string(n))
        },
        PyExpr::Other => PyExpr::Other,
    }
}

fn copy_bytes(x: &Vec<u8>) -> (r: Vec<u8>)
    ensures
        r@ == x@,
{
    let mut r: Vec<u8> = Vec::new();
    let mut i: usize = 0;
    while i < x.len()
        invariant
            i <= x@.len(),
            r@ == x@.subrange(0, i as int),
        decreases x@.len() - i,
    {
        r.push(x[i]);
        assert(r@ =~= x@.subrange(0, i + 1));
        i = i + 1;
    }
    assert(r@ =~= x@);
    r
}

/// Copies of expressions that are part of `whole`.
fn copy_exprs_under(x: &Vec<PyExpr>, Ghost(whole): Ghost<PyExpr>) -> (r: Vec<PyExpr>)
    requires
        decreases_to!(whole => *x),
    ensures
        same_exprs(x@, r@),
    decreases whole, 1nat,
{
    let mut r: Vec<PyExpr> = Vec::new();
    let mut i: usize = 0;
    while i < x.len()
        invariant
            decreases_to!(whole => *x),
            i <= x@.len(),
            r@.len() == i,
            forall|j: int| 0 <= j < i ==> same_expr(#[trigger] x@[j], r@[j]),
        decreases x@.len() - i,
    {
        proof {
            assert(decreases_to!(*x => x@));
            assert(decreases_to!(x@ => x@[i as int]));
        }
        r.push(copy_expr_under(&x[i], Ghost(whole)));
        i = i + 1;
    }
    r
}

fn copy_expr_under(e: &PyExpr, Ghost(whole): Ghost<PyExpr>) -> (r: PyExpr)
    requires
        decreases_to!(whole => *e),
    ensures
        same_expr(*e, r),
    decreases whole, 0nat,
{
    copy_expr(e)
}

fn copy_exprs(x: &Vec<PyExpr>) -> (r: Vec<PyExpr>)
    ensures
        same_exprs(x@, r@),
{
    let mut r: Vec<PyExpr> = Vec::new();
    let mut i: usize = 0;
    while i < x.len()
        invariant
            i <= x@.len(),
            r@.len() == i,
            forall|j: int| 0 <= j < i ==> same_expr(#[trigger] x@[j], r@[j]),
        decreases x@.len() - i,
    {
        r.push(copy_expr(&x[i]));
        i = i + 1;
    }
    r
}

/// Whether `b` is a copy of the call `a`.
pub open spec fn same_call(a: CallExpr, b: CallExpr) -> bool {
    &&& same_expr(a.func, b.func)
    &&& same_exprs(a.args@, b.args@)
    &&& a.keywords@.len() == b.keywords@.len()
    &&& forall|i: int| 0 <= i < a.keywords@.len() ==> {
        let (x, y) = (#[trigger] a.keywords@[i], b.keywords@[i]);
        &&& same_expr(x.value, y.value)
        &&& x.value_line == y.value_line
        &&& match x.arg {
            Some(n) => y.arg matches Some(m) && m@ == n@,
            None => y.arg is None,
        }
    }
}

fn copy_call(c: &CallExpr) -> (r: CallExpr)
    ensures
        same_call(*c, r),
{
    let mut keywords: Vec<KeywordArg> = Vec::new();
    let mut i: usize = 0;
    while i < c.keywords.len()
        invariant
            i <= c.keywords@.len(),
            keywords@.len() == i,
            forall|j: int| 0 <= j < i ==> {
                let (x, y) = (#[trigger] c.keywords@[j], keywords@[j]);
                &&& same_expr(x.value, y.value)
                &&& x.value_line == y.value_line
                &&& match x.arg {
                    Some(n) => y.arg matches Some(m) && m@ == n@,
                    None => y.arg is None,
                }
            },
        decreases c.keywords@.len() - i,
    {
        let k = &c.keywords[i];
        let arg = match &k.arg {
            Some(n) => Some(copy_string(n)),
            None => None,
        };
        keywords.push(KeywordArg { arg, value: copy_expr(&k.value), value_line: k.value_line });
        i = i + 1;
    }
    CallExpr { func: copy_expr(&c.func), args: copy_exprs(&c.args), keywords }
}

/// The texts of imported names.
pub open spec fn names_view(s: Seq<ImportName>) -> Seq<(Seq<char>, Option<Seq<char>>)> {
    s.map_values(|n: ImportName| (n.name@, match n.asname { Some(a) => Some(a@), None => None }))
}

fn copy_names(s: &Vec<ImportName>) -> (r: Vec<ImportName>)
    ensures
        names_view(r@) == names_view(s@),
{
    let mut r: Vec<ImportName> = Vec::new();
    let mut i: usize = 0;
    while i < s.len()
        invariant
            i <= s@.len(),
            names_view(r@) == names_view(s@).subrange(0, i as int),
        decreases s@.len() - i,
    {
        let asname = match &s[i].asname {
            Some(a) => Some(copy_string(a)),
            None => None,
        };
        let ghost before = r@;
        let item = ImportName { name: copy_string(&s[i].name), asname };
        assert(names_view(seq![item])[0] == names_view(s@)[i as int]);
        r.push(item);
        assert(r@ == before.push(item));
        assert(names_view(r@) =~= names_view(before).push(names_view(seq![item])[0]));
        assert(names_view(r@) =~= names_view(s@).subrange(0, i + 1));
        i = i + 1;
    }
    assert(names_view(s@).subrange(0, s@.len() as int) =~= names_view(s@));
    r
}

/// Whether `f` are the facts the walk reads of the visited node `v`;
/// `in_expr` says whether its parent is an expression statement (a
/// string there is a docstring).
pub open spec fn facts_match(v: VNode, in_expr: bool, f: NodeFacts) -> bool {
    match v {
        VNode::Node(p) => match *p {
            PyNode::ClassDef { name, .. } => f matches NodeFacts::ClassDef { name: n } && n@ == name@,
            PyNode::FunctionDef { is_async, name, defaults, .. } => if is_async {
                f matches NodeFacts::AsyncFunctionDef { defaults: d } && same_exprs(defaults@, d@)
            } else {
                f matches NodeFacts::FunctionDef { name: n, defaults: d } && n@ == name@ && same_exprs(defaults@, d@)
            },
            PyNode::Call { call, .. } => f matches NodeFacts::Call(c) && same_call(call, c),
            PyNode::Import { imported, .. } => f matches NodeFacts::Import(n) && names_view(n@) == names_view(imported@),
            PyNode::ImportFrom { module, imported, .. } => f matches NodeFacts::ImportFrom { module: m, names: n }
                && names_view(n@) == names_view(imported@) && match module {
                    Some(x) => m matches Some(y) && y@ == x@,
                    None => m is None,
                },
            PyNode::StrConst { value } => f matches NodeFacts::Str { value: x, in_expr_statement: e } && x@ == value@
                && e == in_expr,
            PyNode::JoinedConst { value } => f matches NodeFacts::Str { value: x, in_expr_statement: e } && x@ == value@
                && e == in_expr,
            PyNode::BytesConst { value } => f matches NodeFacts::Bytes { value: x, in_expr_statement: e } && x@ == value@
                && e == in_expr,
            PyNode::Assert { .. } => f is Assert,
            PyNode::ExceptHandler { .. } => f is ExceptHandler,
            _ => f is Other,
        },
        _ => f is Other,
    }
}

/// The facts the walk reads of a visited node.
pub fn facts_of(v: VNode, in_expr: bool) -> (f: NodeFacts)
    ensures
        facts_match(v, in_expr, f),
{
    match v {
        VNode::Node(p) => match p {
            PyNode::ClassDef { name, .. } => NodeFacts::ClassDef { name: copy_string(name) },
            PyNode::FunctionDef { is_async, name, defaults, .. } => if *is_async {
                NodeFacts::AsyncFunctionDef { defaults: copy_exprs(defaults) }
            } else {
                NodeFacts::FunctionDef { name: copy_string(name), defaults: copy_exprs(defaults) }
            },
            PyNode::Call { call, .. } => NodeFacts::Call(copy_call(call)),
            PyNode::Import { imported, .. } => NodeFacts::Import(copy_names(imported)),
            PyNode::ImportFrom { module, imported, .. } => {
                let m = match module {
                    Some(x) => Some(copy_string(x)),
                    None => None,
                };
                NodeFacts::ImportFrom { module: m, names: copy_names(imported) }
            },
            PyNode::StrConst { value } => NodeFacts::Str { value: copy_string(value), in_expr_statement: in_expr },
            PyNode::JoinedConst { value } => NodeFacts::Str { value: copy_string(value), in_expr_statement: in_expr },
            PyNode::BytesConst { value } => NodeFacts::Bytes { value: copy_bytes(value), in_expr_statement: in_expr },
            PyNode::Assert { .. } => NodeFacts::Assert,
            PyNode::ExceptHandler { .. } => NodeFacts::ExceptHandler,
            _ => NodeFacts::Other,
        },
        _ => NodeFacts::Other,
    }
}

/// Whether `t` is the walk's tree of the visited node `v`: its facts, and
/// for each child in the order [`cpython_children`] gives, that child's
/// tree (a child of an expression statement is read as a docstring).
pub open spec fn tree_of(v: VNode, in_expr: bool, t: WalkTree) -> bool
    decreases t,
{
    &&& facts_match(v, in_expr, t.facts)
    &&& t.children@.len() == cpython_children(v).len()
    &&& forall|i: int| 0 <= i < t.children@.len() ==> tree_of(
        cpython_children(v)[i].node,
        v matches VNode::Node(p) && *p is Expr,
        #[trigger] t.children@[i],
    )
}

/// The walk's tree of the visited node `v`, its children built by
/// [`children`] in CPython's field order.
pub fn walk_tree<'a>(v: VNode<'a>, in_expr: bool) -> (r: WalkTree)
    ensures
        tree_of(v, in_expr, r),
    decreases root_of(v), rank_of(v),
{
    check_clauses_fit(v);
    let facts = facts_of(v, in_expr);
    let cs = children(v);
    proof {
        lemma_children_below(v);
    }
    let child_in_expr = v.is_expr_stmt();
    let mut kids: Vec<WalkTree> = Vec::new();
    let mut i: usize = 0;
    while i < cs.len()
        invariant
            cs@ == cpython_children(v),
            all_below(v, cs@),
            child_in_expr == (v matches VNode::Node(p) && *p is Expr),
            i <= cs@.len(),
            kids@.len() == i,
            forall|j: int| 0 <= j < i ==> tree_of(cs@[j].node, child_in_expr, #[trigger] kids@[j]),
        decreases cs@.len() - i,
    {
        let c = cs[i].node;
        assert(below(v, cs@[i as int].node));
        kids.push(walk_tree(c, child_in_expr));
        i = i + 1;
    }
    WalkTree { facts, children: kids }
}

/// [`clauses_fit`] holds of `v`: the clauses of a statement held in
/// memory are counted by a `usize`.
fn check_clauses_fit(v: VNode)
    ensures
        clauses_fit(v),
{
    match v {
        VNode::Elif(s, _) => match s {
            PyNode::If { clauses, .. } => {
                let _ = clauses.len();
            },
            _ => {},
        },
        _ => {},
    }
}

} // verus!
