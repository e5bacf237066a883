//! The kinds of syntax nodes that tests register for, and the nodes the
//! walk visits with their class names, kinds and positions.

use vstd::prelude::*;
use crate::ast::tree::{class_name, class_name_spec, PyNode};
use crate::text::str_eq;

verus! {

/// Node kinds a test can register for, plus `Other`.
#[derive(Debug, Clone, Copy, PartialEq, Eq, Structural, Hash)]
pub enum NodeKind {
    Call,
    Str,
    Bytes,
    FunctionDef,
    AsyncFunctionDef,
    ClassDef,
    Assert,
    ExceptHandler,
    Import,
    ImportFrom,
    File,
    Other,
}

/// The class name of a kind.
pub open spec fn kind_name(k: NodeKind) -> Seq<char> {
    match k {
        NodeKind::Call => "Call"@,
        NodeKind::Str => "Str"@,
        NodeKind::Bytes => "Bytes"@,
        NodeKind::FunctionDef => "FunctionDef"@,
        NodeKind::AsyncFunctionDef => "AsyncFunctionDef"@,
        NodeKind::ClassDef => "ClassDef"@,
        NodeKind::Assert => "Assert"@,
        NodeKind::ExceptHandler => "ExceptHandler"@,
        NodeKind::Import => "Import"@,
        NodeKind::ImportFrom => "ImportFrom"@,
        NodeKind::File => "File"@,
        NodeKind::Other => "Other"@,
    }
}

/// The position of a kind in declaration order.
pub open spec fn kind_index(k: NodeKind) -> nat {
    match k {
        NodeKind::Call => 0,
        NodeKind::Str => 1,
        NodeKind::Bytes => 2,
        NodeKind::FunctionDef => 3,
        NodeKind::AsyncFunctionDef => 4,
        NodeKind::ClassDef => 5,
        NodeKind::Assert => 6,
        NodeKind::ExceptHandler => 7,
        NodeKind::Import => 8,
        NodeKind::ImportFrom => 9,
        NodeKind::File => 10,
        NodeKind::Other => 11,
    }
}

/// The kind a test may register for under the name `s` (`Other` is not
/// one of them).
pub open spec fn parse_kind(s: Seq<char>) -> Option<NodeKind> {
    if s == "Call"@ {
        Some(NodeKind::Call)
    } else if s == "Str"@ {
        Some(NodeKind::Str)
    } else if s == "Bytes"@ {
        Some(NodeKind::Bytes)
    } else if s == "FunctionDef"@ {
        Some(NodeKind::FunctionDef)
    } else if s == "AsyncFunctionDef"@ {
        Some(NodeKind::AsyncFunctionDef)
    } else if s == "ClassDef"@ {
        Some(NodeKind::ClassDef)
    } else if s == "Assert"@ {
        Some(NodeKind::Assert)
    } else if s == "ExceptHandler"@ {
        Some(NodeKind::ExceptHandler)
    } else if s == "Import"@ {
        Some(NodeKind::Import)
    } else if s == "ImportFrom"@ {
        Some(NodeKind::ImportFrom)
    } else if s == "File"@ {
        Some(NodeKind::File)
    } else {
        None
    }
}

impl NodeKind {
    /// Number of kinds.
    pub const COUNT: usize = 12;

    /// The kind registered under `name`.
    pub fn parse(name: &str) -> (r: Option<NodeKind>)
        ensures
            r == parse_kind(name@),
    {
        if str_eq(name, "Call") {
            Some(NodeKind::Call)
        } else if str_eq(name, "Str") {
            Some(NodeKind::Str)
        } else if str_eq(name, "Bytes") {
            Some(NodeKind::Bytes)
        } else if str_eq(name, "FunctionDef") {
            Some(NodeKind::FunctionDef)
        } else if str_eq(name, "AsyncFunctionDef") {
            Some(NodeKind::AsyncFunctionDef)
        } else if str_eq(name, "ClassDef") {
            Some(NodeKind::ClassDef)
        } else if str_eq(name, "Assert") {
            Some(NodeKind::Assert)
        } else if str_eq(name, "ExceptHandler") {
            Some(NodeKind::ExceptHandler)
        } else if str_eq(name, "Import") {
            Some(NodeKind::Import)
        } else if str_eq(name, "ImportFrom") {
            Some(NodeKind::ImportFrom)
        } else if str_eq(name, "File") {
            Some(NodeKind::File)
        } else {
            None
        }
    }

    /// The class name of the kind.
    pub fn name(self) -> (r: &'static str)
        ensures
            r@ == kind_name(self),
    {
        match self {
            NodeKind::Call => "Call",
            NodeKind::Str => "Str",
            NodeKind::Bytes => "Bytes",
            NodeKind::FunctionDef => "FunctionDef",
            NodeKind::AsyncFunctionDef => "AsyncFunctionDef",
            NodeKind::ClassDef => "ClassDef",
            NodeKind::Assert => "Assert",
            NodeKind::ExceptHandler => "ExceptHandler",
            NodeKind::Import => "Import",
            NodeKind::ImportFrom => "ImportFrom",
            NodeKind::File => "File",
            NodeKind::Other => "Other",
        }
    }

    /// The position of the kind in declaration order.
    pub fn index(self) -> (r: usize)
        ensures
            r == kind_index(self),
            r < NodeKind::COUNT,
    {
        match self {
            NodeKind::Call => 0,
            NodeKind::Str => 1,
            NodeKind::Bytes => 2,
            NodeKind::FunctionDef => 3,
            NodeKind::AsyncFunctionDef => 4,
            NodeKind::ClassDef => 5,
            NodeKind::Assert => 6,
            NodeKind::ExceptHandler => 7,
            NodeKind::Import => 8,
            NodeKind::ImportFrom => 9,
            NodeKind::File => 10,
            NodeKind::Other => 11,
        }
    }
}

/// Every registrable kind's name parses back to it; `Other` has no name
/// that parses.
pub proof fn lemma_kind_roundtrip(k: NodeKind)
    ensures
        k != NodeKind::Other ==> parse_kind(kind_name(k)) == Some(k),
        parse_kind(kind_name(NodeKind::Other)) is None,
{
    reveal_strlit("Call");
    reveal_strlit("Str");
    reveal_strlit("Bytes");
    reveal_strlit("FunctionDef");
    reveal_strlit("AsyncFunctionDef");
    reveal_strlit("ClassDef");
    reveal_strlit("Assert");
    reveal_strlit("ExceptHandler");
    reveal_strlit("Import");
    reveal_strlit("ImportFrom");
    reveal_strlit("File");
    reveal_strlit("Other");
    assert("Call"@.len() == 4 && "Call"@[0] == 'C');
    assert("Str"@.len() == 3 && "Str"@[0] == 'S');
    assert("Bytes"@.len() == 5 && "Bytes"@[0] == 'B');
    assert("FunctionDef"@.len() == 11 && "FunctionDef"@[0] == 'F');
    assert("AsyncFunctionDef"@.len() == 16 && "AsyncFunctionDef"@[0] == 'A');
    assert("ClassDef"@.len() == 8 && "ClassDef"@[0] == 'C');
    assert("Assert"@.len() == 6 && "Assert"@[0] == 'A');
    assert("ExceptHandler"@.len() == 13 && "ExceptHandler"@[0] == 'E');
    assert("Import"@.len() == 6 && "Import"@[0] == 'I');
    assert("ImportFrom"@.len() == 10 && "ImportFrom"@[0] == 'I');
    assert("File"@.len() == 4 && "File"@[0] == 'F');
    assert("Other"@.len() == 5 && "Other"@[0] == 'O');
}

/// A node the walk visits: a node of the tree, or one CPython has and the
/// tree does not hold as a node of its own.
#[derive(Debug, Clone, Copy)]
pub enum VNode<'a> {
    Node(&'a PyNode),
    /// The `elif` clause of index `.1` of the `if` statement `.0`, which
    /// CPython nests as an `If` in the `orelse` before it.
    Elif(&'a PyNode, usize),
    /// The `arguments` of the lambda `.0`, which has no parameters.
    EmptyArguments(&'a PyNode),
}

/// CPython's class name of a visited node.
pub open spec fn ref_class_name_spec(n: VNode) -> Seq<char> {
    match n {
        VNode::Node(p) => class_name_spec(*p),
        VNode::Elif(..) => "If"@,
        VNode::EmptyArguments(_) => "arguments"@,
    }
}

impl<'a> VNode<'a> {
    /// CPython's class name of the node.
    pub fn class_name(self) -> (r: &'static str)
        ensures
            r@ == ref_class_name_spec(self),
    {
        match self {
            VNode::Node(p) => class_name(p),
            VNode::Elif(..) => "If",
            VNode::EmptyArguments(_) => "arguments",
        }
    }
}

/// The kind a visited node's tests are chosen by.
pub open spec fn vnode_kind(n: VNode) -> NodeKind {
    match n {
        VNode::Node(p) => match *p {
            PyNode::FunctionDef { is_async, .. } => if is_async { NodeKind::AsyncFunctionDef } else { NodeKind::FunctionDef },
            PyNode::ClassDef { .. } => NodeKind::ClassDef,
            PyNode::Assert { .. } => NodeKind::Assert,
            PyNode::Import { .. } => NodeKind::Import,
            PyNode::ImportFrom { .. } => NodeKind::ImportFrom,
            PyNode::Call { .. } => NodeKind::Call,
            PyNode::StrConst { .. } => NodeKind::Str,
            PyNode::BytesConst { .. } => NodeKind::Bytes,
            PyNode::ExceptHandler { .. } => NodeKind::ExceptHandler,
            PyNode::JoinedConst { .. } => NodeKind::Str,
            _ => NodeKind::Other,
        },
        _ => NodeKind::Other,
    }
}

/// Whether CPython's node carries `lineno` and `col_offset`.
pub open spec fn has_position_spec(n: VNode) -> bool {
    match n {
        VNode::Node(p) => !(*p is Module || *p is Arguments || *p is WithItem || *p is Comprehension || *p is MatchCase),
        VNode::Elif(..) => true,
        VNode::EmptyArguments(_) => false,
    }
}

impl<'a> VNode<'a> {
    /// The kind the node's tests are chosen by.
    pub fn kind(self) -> (r: NodeKind)
        ensures
            r == vnode_kind(self),
    {
        match self {
            VNode::Node(p) => match p {
                PyNode::FunctionDef { is_async, .. } => if *is_async { NodeKind::AsyncFunctionDef } else { NodeKind::FunctionDef },
                PyNode::ClassDef { .. } => NodeKind::ClassDef,
                PyNode::Assert { .. } => NodeKind::Assert,
                PyNode::Import { .. } => NodeKind::Import,
                PyNode::ImportFrom { .. } => NodeKind::ImportFrom,
                PyNode::Call { .. } => NodeKind::Call,
                PyNode::StrConst { .. } => NodeKind::Str,
                PyNode::BytesConst { .. } => NodeKind::Bytes,
                PyNode::ExceptHandler { .. } => NodeKind::ExceptHandler,
                PyNode::JoinedConst { .. } => NodeKind::Str,
                _ => NodeKind::Other,
            },
            _ => NodeKind::Other,
        }
    }

    /// Whether CPython's node carries `lineno` and `col_offset`.
    pub fn has_position(self) -> (r: bool)
        ensures
            r == has_position_spec(self),
    {
        match self {
            VNode::Node(p) => match p {
                PyNode::Module { .. } | PyNode::Arguments { .. } | PyNode::WithItem { .. } | PyNode::Comprehension { .. }
                | PyNode::MatchCase { .. } => false,
                _ => true,
            },
            VNode::Elif(..) => true,
            VNode::EmptyArguments(_) => false,
        }
    }

    /// Whether the node is an expression statement.
    pub fn is_expr_stmt(self) -> (r: bool)
        ensures
            r == (self matches VNode::Node(p) && *p is Expr),
    {
        match self {
            VNode::Node(PyNode::Expr { .. }) => true,
            _ => false,
        }
    }

    /// Whether the node is a constant whose value is a string.
    pub fn is_str_constant(self) -> (r: bool)
        ensures
            r == (self matches VNode::Node(p) && (*p is StrConst || *p is JoinedConst)),
    {
        match self {
            VNode::Node(PyNode::StrConst { .. }) | VNode::Node(PyNode::JoinedConst { .. }) => true,
            _ => false,
        }
    }
}

} // verus!
