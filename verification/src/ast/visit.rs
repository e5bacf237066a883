//! The visit of one node: what the walk remembers of it, whether the tests
//! of its kind run, and the context they get (`BanditNodeVisitor`).

use vstd::prelude::*;
use crate::ast::expr::PyExpr;
use crate::ast::positions::Pos;
use crate::ast::qualname::{alias_table, call_name, call_name_spec};
use crate::ast::scope::{
    aliases_after, aliases_after_from, imports_after, imports_after_from, last_name, ImportName, WalkState,
};
use crate::ast::vnode::{kind_index, NodeKind};
use crate::fx::str_set;
use crate::engine::context::{CallExpr, Context, FunctionDef};
use crate::engine::issue::LineRange;
use crate::engine::test_set::TestSet;
use crate::engine::tester::wants;
use crate::engine::utils::{namespace_path_split, namespace_split};
use crate::text::{copy_string, to_owned_string};

verus! {

/// What the walk reads of the node it visits.
#[derive(Debug)]
pub enum NodeFacts {
    ClassDef { name: String },
    FunctionDef { name: String, defaults: Vec<PyExpr> },
    AsyncFunctionDef { defaults: Vec<PyExpr> },
    Call(CallExpr),
    Import(Vec<ImportName>),
    /// `from module import names` (`module` is `None` for `from . import`).
    ImportFrom { module: Option<String>, names: Vec<ImportName> },
    /// A string constant; `in_expr_statement` when it is a statement of its
    /// own (a docstring).
    Str { value: String, in_expr_statement: bool },
    Bytes { value: Vec<u8>, in_expr_statement: bool },
    Assert,
    ExceptHandler,
    Other,
}

/// What visiting a node does: whether the tests of `kind` run, the fields
/// of their context, and the namespace length to restore once the node's
/// children have been visited (when `pops_namespace`).
#[derive(Debug)]
pub struct Visit {
    pub kind: NodeKind,
    pub run: bool,
    pub call: Option<CallExpr>,
    pub function: Option<FunctionDef>,
    pub qualname: Option<String>,
    pub name: Option<String>,
    pub module: Option<String>,
    pub str_val: Option<String>,
    pub bytes_val: Option<Vec<u8>>,
    /// The context takes the line range of the node's parent (string
    /// constants).
    pub parent_range: bool,
    pub ns_len: usize,
    pub pops_namespace: bool,
}

/// Whether `tests` has tests for `kind`.
pub open spec fn wanted(tests: TestSet, kind: NodeKind) -> bool {
    kind_index(kind) < tests.tests@.len() && tests.tests@[kind_index(kind) as int]@.len() > 0
}

/// The characters a visit adds to the namespace at most.
pub open spec fn name_len(n: NodeFacts) -> int {
    match n {
        NodeFacts::ClassDef { name } => name@.len() as int,
        NodeFacts::FunctionDef { name, .. } => name@.len() as int,
        _ => 0,
    }
}

/// `rsplit('.').next()`: the part after the last dot, or all of `q`.
pub open spec fn last_part(q: Seq<char>) -> Seq<char> {
    match namespace_split(q).1 {
        Some(t) => t,
        None => q,
    }
}

/// The part after the last dot.
fn last_part_of(q: &str) -> (r: String)
    ensures
        r@ == last_part(q@),
{
    let (_, tail) = namespace_path_split(q);
    match tail {
        Some(t) => t,
        None => to_owned_string(q),
    }
}

/// What the walk state stands for: the namespace, the imported names and
/// the alias table, by their text.
pub ghost struct WalkModel {
    pub namespace: Seq<char>,
    pub imports: Set<Seq<char>>,
    pub aliases: Map<Seq<char>, Seq<char>>,
}

/// The model of a walk state.
pub open spec fn walk_model(w: WalkState) -> WalkModel {
    WalkModel { namespace: w.namespace@, imports: str_set(w.imports), aliases: alias_table(w.import_aliases) }
}

/// The state after visiting `node` in state `m`: a class opens a scope
/// with its name, a function one with the last part of its qualified
/// name; imports are recorded; other nodes change nothing.
pub open spec fn visit_model(m: WalkModel, node: NodeFacts) -> WalkModel {
    match node {
        NodeFacts::ClassDef { name } => WalkModel { namespace: m.namespace + seq!['.'] + name@, ..m },
        NodeFacts::FunctionDef { name, .. } => WalkModel {
            namespace: m.namespace + seq!['.'] + last_part(m.namespace + seq!['.'] + name@),
            ..m
        },
        NodeFacts::Import(names) => WalkModel {
            imports: imports_after(m.imports, names@),
            aliases: aliases_after(m.aliases, names@),
            ..m
        },
        NodeFacts::ImportFrom { module, names } => match module {
            None => WalkModel {
                imports: imports_after(m.imports, names@),
                aliases: aliases_after(m.aliases, names@),
                ..m
            },
            Some(x) => WalkModel {
                imports: imports_after_from(m.imports, x@, names@),
                aliases: aliases_after_from(m.aliases, x@, names@),
                ..m
            },
        },
        _ => m,
    }
}

/// Whether `r` is what visiting `node` in state `m` gives: the kind,
/// whether its tests run (`tests` has tests for it; never for a class,
/// a docstring or another node), the namespace length to restore, and
/// the context fields of each kind.
pub open spec fn visit_out(m: WalkModel, node: NodeFacts, tests: TestSet, r: Visit) -> bool {
    &&& r.ns_len == m.namespace.len()
    &&& r.kind == facts_kind(node)
    &&& r.pops_namespace == (node is ClassDef || node is FunctionDef)
    &&& r.parent_range == (node is Str || node is Bytes)
    &&& match node {
        NodeFacts::ClassDef { .. } => !r.run && r.call is None && r.function is None && r.qualname is None
            && r.name is None && r.module is None && r.str_val is None && r.bytes_val is None,
        NodeFacts::FunctionDef { name, defaults } => {
            &&& r.run == wanted(tests, NodeKind::FunctionDef)
            &&& r.qualname matches Some(q) && q@ == m.namespace + seq!['.'] + name@
            &&& r.name matches Some(n) && n@ == last_part(m.namespace + seq!['.'] + name@)
            &&& r.function matches Some(f) && f.defaults == defaults
            &&& r.call is None && r.module is None && r.str_val is None && r.bytes_val is None
        },
        NodeFacts::AsyncFunctionDef { defaults } => {
            &&& r.run == wanted(tests, NodeKind::AsyncFunctionDef)
            &&& r.function matches Some(f) && f.defaults == defaults
            &&& r.call is None && r.qualname is None && r.name is None && r.module is None
            &&& r.str_val is None && r.bytes_val is None
        },
        NodeFacts::Call(c) => {
            &&& r.run == wanted(tests, NodeKind::Call)
            &&& r.qualname matches Some(q) && q@ == call_name_spec(c.func, m.aliases)
            &&& r.name matches Some(n) && n@ == last_part(r.qualname.unwrap()@)
            &&& r.call == Some(c)
            &&& r.function is None && r.module is None && r.str_val is None && r.bytes_val is None
        },
        NodeFacts::Import(names) => {
            &&& r.run == wanted(tests, NodeKind::Import)
            &&& match r.module {
                Some(x) => last_name(names@) == Some(x@),
                None => last_name(names@) is None,
            }
            &&& r.call is None && r.function is None && r.qualname is None && r.name is None
            &&& r.str_val is None && r.bytes_val is None
        },
        NodeFacts::ImportFrom { module, names } => match module {
            None => {
                &&& r.run == wanted(tests, NodeKind::Import)
                &&& match r.module {
                    Some(x) => last_name(names@) == Some(x@),
                    None => last_name(names@) is None,
                }
                &&& r.call is None && r.function is None && r.qualname is None && r.name is None
                &&& r.str_val is None && r.bytes_val is None
            },
            Some(x) => {
                &&& r.run == wanted(tests, NodeKind::ImportFrom)
                &&& r.module matches Some(y) && y@ == x@
                &&& match r.name {
                    Some(n) => last_name(names@) == Some(n@),
                    None => last_name(names@) is None,
                }
                &&& r.call is None && r.function is None && r.qualname is None
                &&& r.str_val is None && r.bytes_val is None
            },
        },
        NodeFacts::Str { value, in_expr_statement } => {
            &&& r.run == (!in_expr_statement && wanted(tests, NodeKind::Str))
            &&& r.str_val == Some(value)
            &&& r.call is None && r.function is None && r.qualname is None && r.name is None
            &&& r.module is None && r.bytes_val is None
        },
        NodeFacts::Bytes { value, in_expr_statement } => {
            &&& r.run == (!in_expr_statement && wanted(tests, NodeKind::Bytes))
            &&& r.bytes_val == Some(value)
            &&& r.call is None && r.function is None && r.qualname is None && r.name is None
            &&& r.module is None && r.str_val is None
        },
        NodeFacts::Assert => r.run == wanted(tests, NodeKind::Assert) && r.call is None && r.function is None
            && r.qualname is None && r.name is None && r.module is None && r.str_val is None && r.bytes_val is None,
        NodeFacts::ExceptHandler => r.run == wanted(tests, NodeKind::ExceptHandler) && r.call is None
            && r.function is None && r.qualname is None && r.name is None && r.module is None
            && r.str_val is None && r.bytes_val is None,
        NodeFacts::Other => !r.run && r.call is None && r.function is None && r.qualname is None
            && r.name is None && r.module is None && r.str_val is None && r.bytes_val is None,
    }
}

/// A visit that runs nothing and opens no scope.
fn plain(kind: NodeKind, run: bool, ns_len: usize) -> (r: Visit)
    ensures
        r.kind == kind,
        r.run == run,
        r.ns_len == ns_len,
        !r.pops_namespace,
        !r.parent_range,
        r.call is None && r.function is None && r.qualname is None && r.name is None,
        r.module is None && r.str_val is None && r.bytes_val is None,
{
    Visit {
        kind,
        run,
        call: None,
        function: None,
        qualname: None,
        name: None,
        module: None,
        str_val: None,
        bytes_val: None,
        parent_range: false,
        ns_len,
        pops_namespace: false,
    }
}

impl WalkState {
    /// `visit(node)`: classes and functions open a scope of the namespace;
    /// a function's tests get its qualified name and name, a call's its
    /// resolved name and the last part of it; imports are remembered and
    /// their tests get the module; string constants other than docstrings
    /// get their value and their parent's line range; asserts and
    /// exception handlers get the node alone.
    pub fn visit(&mut self, node: NodeFacts, tests: &TestSet) -> (r: Visit)
        requires
            old(self).namespace@.len() + name_len(node) + 1 <= usize::MAX,
        ensures
            r.ns_len == old(self).namespace@.len(),
            final(self).namespace@.len() <= old(self).namespace@.len() + name_len(node) + 1,
            !r.pops_namespace ==> final(self).namespace == old(self).namespace,
            r.pops_namespace ==> final(self).namespace@.subrange(0, r.ns_len as int) == old(self).namespace@,
            visit_out(walk_model(*old(self)), node, *tests, r),
            walk_model(*final(self)) == visit_model(walk_model(*old(self)), node),
            (node is AsyncFunctionDef || node is Call || node is Str || node is Bytes || node is Assert
                || node is ExceptHandler || node is Other) ==> *final(self) == *old(self),
    {
        let ns_len = self.namespace.unicode_len();
        match node {
            NodeFacts::ClassDef { name } => {
                self.enter_class(name.as_str());
                let mut v = plain(NodeKind::ClassDef, false, ns_len);
                v.pops_namespace = true;
                v
            },
            NodeFacts::FunctionDef { name, defaults } => {
                let (_, qualname, fname) = self.enter_function(name.as_str());
                let run = wants(tests, NodeKind::FunctionDef);
                let mut v = plain(NodeKind::FunctionDef, run, ns_len);
                v.pops_namespace = true;
                v.qualname = Some(qualname);
                v.name = Some(fname);
                v.function = Some(FunctionDef { defaults });
                v
            },
            NodeFacts::AsyncFunctionDef { defaults } => {
                let run = wants(tests, NodeKind::AsyncFunctionDef);
                let mut v = plain(NodeKind::AsyncFunctionDef, run, ns_len);
                v.function = Some(FunctionDef { defaults });
                v
            },
            NodeFacts::Call(c) => {
                let run = wants(tests, NodeKind::Call);
                let q = call_name(&c.func, &self.import_aliases);
                let n = last_part_of(q.as_str());
                let mut v = plain(NodeKind::Call, run, ns_len);
                v.qualname = Some(q);
                v.name = Some(n);
                v.call = Some(c);
                v
            },
            NodeFacts::Import(names) => {
                let module = self.record_import(&names);
                let run = wants(tests, NodeKind::Import);
                let mut v = plain(NodeKind::Import, run, ns_len);
                v.module = module;
                v
            },
            NodeFacts::ImportFrom { module, names } => match module {
                None => {
                    let m = self.record_import(&names);
                    let run = wants(tests, NodeKind::Import);
                    let mut v = plain(NodeKind::Import, run, ns_len);
                    v.module = m;
                    v
                },
                Some(m) => {
                    let last = self.record_import_from(m.as_str(), &names);
                    let run = wants(tests, NodeKind::ImportFrom);
                    let mut v = plain(NodeKind::ImportFrom, run, ns_len);
                    v.module = Some(m);
                    v.name = last;
                    v
                },
            },
            NodeFacts::Str { value, in_expr_statement } => {
                let run = !in_expr_statement && wants(tests, NodeKind::Str);
                let mut v = plain(NodeKind::Str, run, ns_len);
                v.str_val = Some(value);
                v.parent_range = true;
                v
            },
            NodeFacts::Bytes { value, in_expr_statement } => {
                let run = !in_expr_statement && wants(tests, NodeKind::Bytes);
                let mut v = plain(NodeKind::Bytes, run, ns_len);
                v.bytes_val = Some(value);
                v.parent_range = true;
                v
            },
            NodeFacts::Assert => plain(NodeKind::Assert, wants(tests, NodeKind::Assert), ns_len),
            NodeFacts::ExceptHandler => plain(NodeKind::ExceptHandler, wants(tests, NodeKind::ExceptHandler), ns_len),
            NodeFacts::Other => plain(NodeKind::Other, false, ns_len),
        }
    }

    /// `pre_visit`'s base context completed by a visit: the node's file,
    /// position and line range, the visit's fields, and the imports so far.
    pub fn context<'w>(&'w self, filename: &str, pos: Option<Pos>, linerange: LineRange, v: Visit) -> (r: Context<'w>)
        ensures
            r.filename@ == filename@,
            r.pos == pos,
            r.linerange == linerange,
            r.call == v.call && r.function == v.function && r.qualname == v.qualname && r.name == v.name,
            r.module == v.module && r.str_val == v.str_val && r.bytes_val == v.bytes_val,
            r.imports == &self.imports,
            r.import_aliases == &self.import_aliases,
    {
        Context {
            filename: to_owned_string(filename),
            pos,
            linerange,
            call: v.call,
            function: v.function,
            qualname: v.qualname,
            name: v.name,
            module: v.module,
            str_val: v.str_val,
            bytes_val: v.bytes_val,
            imports: &self.imports,
            import_aliases: &self.import_aliases,
        }
    }

    /// The context of the file-level tests, run once the module has been
    /// walked: no node, position zero, lines 0 to 1.
    pub fn file_context<'w>(&'w self, filename: &str) -> (r: Context<'w>)
        ensures
            r.filename@ == filename@,
            r.pos == Some(Pos { lineno: 0, col_offset: 0, end_lineno: 0, end_col_offset: 0 }),
            r.linerange == (LineRange { start: 0, end: 1 }),
            r.call is None && r.function is None && r.qualname is None && r.name is None,
            r.module is None && r.str_val is None && r.bytes_val is None,
            r.imports == &self.imports,
            r.import_aliases == &self.import_aliases,
    {
        Context {
            filename: to_owned_string(filename),
            pos: Some(Pos { lineno: 0, col_offset: 0, end_lineno: 0, end_col_offset: 0 }),
            linerange: LineRange::new(0, 1),
            call: None,
            function: None,
            qualname: None,
            name: None,
            module: None,
            str_val: None,
            bytes_val: None,
            imports: &self.imports,
            import_aliases: &self.import_aliases,
        }
    }
}

} // verus!

verus! {

/// A subtree to walk: the facts of its root, and its children in order.
#[derive(Debug)]
pub struct WalkTree {
    pub facts: NodeFacts,
    pub children: Vec<WalkTree>,
}

/// The kind a node's visit reports (`from . import` is an import).
pub open spec fn facts_kind(n: NodeFacts) -> NodeKind {
    match n {
        NodeFacts::ClassDef { .. } => NodeKind::ClassDef,
        NodeFacts::FunctionDef { .. } => NodeKind::FunctionDef,
        NodeFacts::AsyncFunctionDef { .. } => NodeKind::AsyncFunctionDef,
        NodeFacts::Call(_) => NodeKind::Call,
        NodeFacts::Import(_) => NodeKind::Import,
        NodeFacts::ImportFrom { module, .. } => if module is None { NodeKind::Import } else { NodeKind::ImportFrom },
        NodeFacts::Str { .. } => NodeKind::Str,
        NodeFacts::Bytes { .. } => NodeKind::Bytes,
        NodeFacts::Assert => NodeKind::Assert,
        NodeFacts::ExceptHandler => NodeKind::ExceptHandler,
        NodeFacts::Other => NodeKind::Other,
    }
}

/// The kinds of a forest's nodes in visit order: each node, then its
/// children's subtrees.
pub open spec fn forest_kinds(ts: Seq<WalkTree>) -> Seq<NodeKind>
    decreases ts,
{
    if ts.len() == 0 {
        Seq::empty()
    } else {
        forest_kinds(ts.drop_last()) + tree_kinds(ts.last())
    }
}

/// The kinds of a subtree's nodes in visit order.
pub open spec fn tree_kinds(t: WalkTree) -> Seq<NodeKind>
    decreases t,
{
    seq![facts_kind(t.facts)] + forest_kinds(t.children@)
}

/// The state after walking the forest `ts` from state `m`.
pub open spec fn forest_after(m: WalkModel, ts: Seq<WalkTree>) -> WalkModel
    decreases ts,
{
    if ts.len() == 0 {
        m
    } else {
        tree_after(forest_after(m, ts.drop_last()), ts.last())
    }
}

/// The state after walking the subtree `t` from state `m`: its node's
/// visit, then its children's, then the scope it opened is closed.
pub open spec fn tree_after(m: WalkModel, t: WalkTree) -> WalkModel
    decreases t,
{
    WalkModel { namespace: m.namespace, ..forest_after(visit_model(m, t.facts), t.children@) }
}

/// Whether `vs` are the visits of walking the forest `ts` from state `m`:
/// those of each tree in turn, each tree walked in the state the trees
/// before it left.
pub open spec fn forest_visits(m: WalkModel, ts: Seq<WalkTree>, tests: TestSet, vs: Seq<Visit>) -> bool
    decreases ts,
{
    if ts.len() == 0 {
        vs.len() == 0
    } else {
        let k = forest_kinds(ts.drop_last()).len() as int;
        &&& k <= vs.len()
        &&& forest_visits(m, ts.drop_last(), tests, vs.take(k))
        &&& tree_visits(forest_after(m, ts.drop_last()), ts.last(), tests, vs.skip(k))
    }
}

/// Whether `vs` are the visits of walking the subtree `t` from state `m`:
/// its node's visit first, then its children's from the state that visit
/// left.
pub open spec fn tree_visits(m: WalkModel, t: WalkTree, tests: TestSet, vs: Seq<Visit>) -> bool
    decreases t,
{
    &&& vs.len() >= 1
    &&& visit_out(m, t.facts, tests, vs[0])
    &&& forest_visits(visit_model(m, t.facts), t.children@, tests, vs.skip(1))
}

/// Room the namespace may need while a forest is walked: a dot and a name
/// per node.
pub open spec fn forest_room(ts: Seq<WalkTree>) -> int
    decreases ts,
{
    if ts.len() == 0 {
        0
    } else {
        forest_room(ts.drop_last()) + tree_room(ts.last())
    }
}

/// Room the namespace may need while a subtree is walked.
pub open spec fn tree_room(t: WalkTree) -> int
    decreases t,
{
    name_len(t.facts) + 1 + forest_room(t.children@)
}

proof fn lemma_room_nonneg(ts: Seq<WalkTree>)
    ensures
        forest_room(ts) >= 0,
    decreases ts,
{
    if ts.len() > 0 {
        assert(decreases_to!(ts => ts.drop_last())) by {
            assert(ts.drop_last() =~= ts.subrange(0, ts.len() - 1));
        }
        lemma_room_nonneg(ts.drop_last());
        let t = ts.last();
        assert(decreases_to!(ts => ts[ts.len() - 1]));
        assert(decreases_to!(t => t.children));
        assert(decreases_to!(t.children => t.children@));
        lemma_room_nonneg(t.children@);
        assert(name_len(t.facts) >= 0);
        assert(tree_room(t) == name_len(t.facts) + 1 + forest_room(t.children@));
        assert(forest_room(ts) == forest_room(ts.drop_last()) + tree_room(t));
    }
}

impl WalkState {
    /// `process`: visits every node of the forest, each before its
    /// children, closing the scope a node opened once its children are
    /// done. Returns the visits in order, each that of its node in the
    /// state the nodes before it left; the namespace ends as it began and
    /// the imports as the walk recorded them.
    pub fn walk(&mut self, nodes: Vec<WalkTree>, tests: &TestSet) -> (r: Vec<Visit>)
        requires
            old(self).namespace@.len() + forest_room(nodes@) <= usize::MAX,
        ensures
            final(self).namespace@ == old(self).namespace@,
            r@.map_values(|v: Visit| v.kind) == forest_kinds(nodes@),
            forest_visits(walk_model(*old(self)), nodes@, *tests, r@),
            walk_model(*final(self)) == forest_after(walk_model(*old(self)), nodes@),
        decreases nodes@,
    {
        let ghost all = nodes@;
        let ghost start = self.namespace@;
        let ghost m0 = walk_model(*self);
        let mut rest = nodes;
        let mut out: Vec<Visit> = Vec::new();
        let mut k: usize = 0;
        let n = rest.len();
        proof {
            assert(all.subrange(0, 0) =~= Seq::<WalkTree>::empty());
            assert(out@.map_values(|v: Visit| v.kind) =~= Seq::<NodeKind>::empty());
            lemma_forest_room_split(all, 0);
        }
        while rest.len() > 0
            invariant
                n == all.len(),
                all == nodes@,
                k <= n,
                rest@ == all.skip(k as int),
                self.namespace@ == start,
                start.len() + forest_room(all) <= usize::MAX,
                forest_room(all) == forest_room(all.subrange(0, k as int)) + forest_room(all.skip(k as int)),
                out@.map_values(|v: Visit| v.kind) == forest_kinds(all.subrange(0, k as int)),
                walk_model(*self) == forest_after(m0, all.subrange(0, k as int)),
                forest_visits(m0, all.subrange(0, k as int), *tests, out@),
            decreases rest@.len(),
        {
            assert(k < n);
            let t = rest.remove(0);
            let ghost gt = t;
            assert(gt == all[k as int]);
            assert(all.skip(k as int).skip(1) =~= all.skip(k + 1));
            proof {
                assert(decreases_to!(all => all[k as int]));
                assert(decreases_to!(gt => gt.children));
                assert(decreases_to!(gt.children => gt.children@));
                lemma_forest_room_split(all, k as int);
                lemma_room_nonneg(gt.children@);
                lemma_room_nonneg(all.skip(k + 1));
                lemma_room_nonneg(all.subrange(0, k as int));
                assert(tree_room(gt) == name_len(gt.facts) + 1 + forest_room(gt.children@));
            }
            let ghost mk = walk_model(*self);
            let ghost out_old = out@;
            let WalkTree { facts, children } = t;
            let v = self.visit(facts, tests);
            let ghost gv = v;
            let restore = v.ns_len;
            let pops = v.pops_namespace;
            let ghost kind = v.kind;
            let ghost before = out@;
            out.push(v);
            proof {
                assert(out@.map_values(|v: Visit| v.kind) =~= before.map_values(|v: Visit| v.kind).push(kind));
            }
            let inner = self.walk(children, tests);
            let ghost inner_kinds = inner@.map_values(|v: Visit| v.kind);
            let ghost before2 = out@;
            let mut inner_vec = inner;
            out.append(&mut inner_vec);
            proof {
                assert(out@ =~= before2 + inner@);
                assert(before2 =~= out_old.push(gv));
                assert(out@.map_values(|v: Visit| v.kind) =~= before2.map_values(|v: Visit| v.kind) + inner_kinds);
            }
            if pops {
                self.leave(restore);
            }
            proof {
                let cur = all.subrange(0, k + 1);
                assert(cur.drop_last() =~= all.subrange(0, k as int));
                assert(walk_model(*self) =~= tree_after(mk, gt));
                assert(out_old.len() == forest_kinds(all.subrange(0, k as int)).len()) by {
                    assert(out_old.map_values(|v: Visit| v.kind).len() == out_old.len());
                }
                let tail = out@.skip(out_old.len() as int);
                assert(tail[0] == gv);
                assert(tail.skip(1) =~= inner@);
                assert(tree_visits(mk, gt, *tests, tail));
                assert(out@.take(out_old.len() as int) =~= out_old);
                assert(cur.last() == gt);
                assert(tree_kinds(gt) =~= seq![kind] + forest_kinds(gt.children@));
                lemma_forest_room_split(all, k + 1);
            }
            k = k + 1;
        }
        assert(all.subrange(0, n as int) =~= all);
        out
    }
}

/// The room of two forests one after the other is the sum of theirs.
proof fn lemma_forest_room_concat(a: Seq<WalkTree>, b: Seq<WalkTree>)
    ensures
        forest_room(a + b) == forest_room(a) + forest_room(b),
    decreases b.len(),
{
    if b.len() == 0 {
        assert(a + b =~= a);
    } else {
        assert((a + b).drop_last() =~= a + b.drop_last());
        assert((a + b).last() == b.last());
        lemma_forest_room_concat(a, b.drop_last());
    }
}

/// The room of a forest is that of a prefix plus that of the rest, and the
/// rest's is its first tree's plus that of the trees after it.
proof fn lemma_forest_room_split(ts: Seq<WalkTree>, k: int)
    requires
        0 <= k <= ts.len(),
    ensures
        forest_room(ts) == forest_room(ts.subrange(0, k)) + forest_room(ts.skip(k)),
        k < ts.len() ==> forest_room(ts.skip(k)) == tree_room(ts[k]) + forest_room(ts.skip(k + 1)),
{
    assert(ts =~= ts.subrange(0, k) + ts.skip(k));
    lemma_forest_room_concat(ts.subrange(0, k), ts.skip(k));
    if k < ts.len() {
        let one = seq![ts[k]];
        assert(ts.skip(k) =~= one + ts.skip(k + 1));
        lemma_forest_room_concat(one, ts.skip(k + 1));
        assert(one.drop_last() =~= Seq::<WalkTree>::empty());
        assert(one.last() == ts[k]);
        assert(forest_room(one) == forest_room(one.drop_last()) + tree_room(ts[k]));
        assert(forest_room(one) == tree_room(ts[k]));
    }
}

} // verus!
