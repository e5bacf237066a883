//! The line range of a node (`utils.linerange`, `utils.calc_linerange`).

use vstd::prelude::*;
use crate::engine::issue::LineRange;

verus! {

/// A subtree, by the start line of each node (`None` for nodes without a
/// position), children in order.
#[derive(Debug)]
pub struct LineTree {
    pub line: Option<u32>,
    pub children: Vec<LineTree>,
}

/// The lowest line when no node has one.
pub open spec fn no_min() -> int {
    9_999_999_999
}

/// The smaller of two integers.
pub open spec fn min_of(a: int, b: int) -> int {
    if a <= b {
        a
    } else {
        b
    }
}

/// The larger of two integers.
pub open spec fn max_of(a: int, b: int) -> int {
    if a >= b {
        a
    } else {
        b
    }
}

/// The lowest start line in a subtree ([`no_min`] when none).
pub open spec fn tree_min(t: LineTree) -> int
    decreases t, 0nat,
{
    min_of(
        match t.line {
            Some(l) => l as int,
            None => no_min(),
        },
        trees_min(t.children@),
    )
}

/// The lowest start line in a list of subtrees.
pub open spec fn trees_min(s: Seq<LineTree>) -> int
    decreases s, 1nat,
{
    if s.len() == 0 {
        no_min()
    } else {
        min_of(trees_min(s.drop_last()), tree_min(s.last()))
    }
}

/// The highest start line in a subtree (`-1` when none).
pub open spec fn tree_max(t: LineTree) -> int
    decreases t, 0nat,
{
    max_of(
        match t.line {
            Some(l) => l as int,
            None => -1,
        },
        trees_max(t.children@),
    )
}

/// The highest start line in a list of subtrees.
pub open spec fn trees_max(s: Seq<LineTree>) -> int
    decreases s, 1nat,
{
    if s.len() == 0 {
        -1
    } else {
        max_of(trees_max(s.drop_last()), tree_max(s.last()))
    }
}

/// A subtree with a line has its lowest and highest line among the lines;
/// one without has the sentinels.
pub proof fn lemma_tree_bounds(t: LineTree)
    ensures
        tree_max(t) == -1 ==> tree_min(t) == no_min(),
        tree_max(t) != -1 ==> 0 <= tree_min(t) <= tree_max(t) <= u32::MAX,
    decreases t, 0nat,
{
    assert(decreases_to!(t => t.children));
    assert(decreases_to!(t.children => t.children@));
    lemma_trees_bounds(t.children@);
}

/// [`lemma_tree_bounds`] for a list of subtrees.
pub proof fn lemma_trees_bounds(s: Seq<LineTree>)
    ensures
        trees_max(s) == -1 ==> trees_min(s) == no_min(),
        trees_max(s) != -1 ==> 0 <= trees_min(s) <= trees_max(s) <= u32::MAX,
    decreases s, 1nat,
{
    if s.len() > 0 {
        assert(decreases_to!(s => s.drop_last())) by {
            assert(s.drop_last() =~= s.subrange(0, s.len() - 1));
        }
        lemma_trees_bounds(s.drop_last());
        assert(decreases_to!(s => s[s.len() - 1]));
        lemma_tree_bounds(s.last());
    }
}

impl LineTree {
    /// `calc_linerange(node)`: the lowest and highest start line in the
    /// subtree, `(9999999999, -1)` when no node has one.
    pub fn calc_linerange(&self) -> (r: (i64, i64))
        ensures
            r.0 == tree_min(*self),
            r.1 == tree_max(*self),
        decreases self,
    {
        proof {
            lemma_tree_bounds(*self);
        }
        let mut lo: i64 = 9_999_999_999;
        let mut hi: i64 = -1;
        match self.line {
            Some(l) => {
                lo = l as i64;
                hi = l as i64;
            },
            None => {},
        }
        let ghost own_lo = lo as int;
        let ghost own_hi = hi as int;
        let mut i: usize = 0;
        assert(self.children@.subrange(0, 0) =~= Seq::<LineTree>::empty());
        while i < self.children.len()
            invariant
                i <= self.children@.len(),
                lo == min_of(own_lo, trees_min(self.children@.subrange(0, i as int))),
                hi == max_of(own_hi, trees_max(self.children@.subrange(0, i as int))),
                own_lo == match self.line {
                    Some(l) => l as int,
                    None => no_min(),
                },
                own_hi == match self.line {
                    Some(l) => l as int,
                    None => -1,
                },
            decreases self.children@.len() - i,
        {
            let ghost u = self.children@.subrange(0, i + 1);
            assert(u.drop_last() =~= self.children@.subrange(0, i as int));
            assert(u.last() == self.children@[i as int]);
            proof {
                assert(decreases_to!(*self => self.children));
                assert(decreases_to!(self.children => self.children@));
                assert(decreases_to!(self.children@ => self.children@[i as int]));
                lemma_tree_bounds(self.children@[i as int]);
            }
            let (clo, chi) = self.children[i].calc_linerange();
            if clo < lo {
                lo = clo;
            }
            if chi > hi {
                hi = chi;
            }
            i = i + 1;
        }
        assert(self.children@.subrange(0, self.children@.len() as int) =~= self.children@);
        (lo, hi)
    }
}

/// `linerange(node)`: the node's own lines when it has a position;
/// otherwise the lowest to highest start line of its stripped children
/// (`0` to `1` when none has one), cut at the line before the next
/// sibling when that starts more than one line later.
pub open spec fn node_range(pos: Option<(u32, u32)>, stripped: Seq<LineTree>, sibling_line: Option<u32>) -> (int, int) {
    match pos {
        Some(p) => (p.0 as int, p.1 as int),
        None => {
            let lo = if trees_max(stripped) == -1 { 0 } else { trees_min(stripped) };
            let hi = if trees_max(stripped) == -1 { 1 } else { trees_max(stripped) };
            match sibling_line {
                Some(s) => if s - lo > 1 { (lo, s - 1) } else { (lo, hi) },
                None => (lo, hi),
            }
        },
    }
}

/// `linerange(node)`; `pos` is the node's start and end line when it has
/// a position, `stripped` its children but the stripped fields, and
/// `sibling_line` the start line of its next sibling, if any.
pub fn linerange(pos: Option<(u32, u32)>, stripped: &Vec<LineTree>, sibling_line: Option<u32>) -> (r: LineRange)
    ensures
        r.start == node_range(pos, stripped@, sibling_line).0,
        r.end == node_range(pos, stripped@, sibling_line).1,
{
    match pos {
        Some(p) => return LineRange::new(p.0, p.1),
        None => {},
    }
    let mut lo: i64 = 9_999_999_999;
    let mut hi: i64 = -1;
    let mut i: usize = 0;
    assert(stripped@.subrange(0, 0) =~= Seq::<LineTree>::empty());
    while i < stripped.len()
        invariant
            i <= stripped@.len(),
            lo == trees_min(stripped@.subrange(0, i as int)),
            hi == trees_max(stripped@.subrange(0, i as int)),
        decreases stripped@.len() - i,
    {
        let ghost u = stripped@.subrange(0, i + 1);
        assert(u.drop_last() =~= stripped@.subrange(0, i as int));
        assert(u.last() == stripped@[i as int]);
        let (clo, chi) = stripped[i].calc_linerange();
        if clo < lo {
            lo = clo;
        }
        if chi > hi {
            hi = chi;
        }
        i = i + 1;
    }
    assert(stripped@.subrange(0, stripped@.len() as int) =~= stripped@);
    proof {
        lemma_trees_bounds(stripped@);
    }
    if hi == -1 {
        lo = 0;
        hi = 1;
    }
    match sibling_line {
        Some(s) => {
            if s as i64 - lo > 1 {
                return LineRange::new(lo as u32, s - 1);
            }
        },
        None => {},
    }
    LineRange::new(lo as u32, hi as u32)
}

} // verus!
