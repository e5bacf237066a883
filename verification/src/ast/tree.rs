//! The Python syntax tree as CPython's `ast` module shapes it: the nodes
//! the walk visits, with the fields whose children it visits.

use vstd::prelude::*;
use crate::ast::expr::PyExpr;
use crate::ast::scope::ImportName;
use crate::engine::context::CallExpr;

verus! {

/// A parameter of a function: its `arg` node and its default value.
#[derive(Debug)]
pub struct Param {
    pub arg: PyNode,
    pub default: Option<PyNode>,
}

/// An `elif` clause (with a test) or the final `else` (without).
#[derive(Debug)]
pub struct ElifElse {
    pub test: Option<PyNode>,
    pub body: Vec<PyNode>,
}

/// An entry of a dictionary display; a `**` entry has no key.
#[derive(Debug)]
pub struct DictItem {
    pub key: Option<PyNode>,
    pub value: PyNode,
}

/// A node of the syntax tree. Constants other than strings and bytes are
/// one variant;
/// f-strings and t-strings hold the values of their merged view (absent
/// when the view could not be built).
#[derive(Debug)]
pub enum PyNode {
    Module { body: Vec<PyNode> },
    /// A function; `defaults` are the default values of its positional
    /// parameters, as the tests read them.
    FunctionDef {
        is_async: bool,
        name: String,
        defaults: Vec<PyExpr>,
        args: Box<PyNode>,
        body: Vec<PyNode>,
        decorators: Vec<PyNode>,
        return_annotation: Option<Box<PyNode>>,
        type_params: Option<Vec<PyNode>>,
    },
    ClassDef {
        name: String,
        bases: Vec<PyNode>,
        keywords: Vec<PyNode>,
        body: Vec<PyNode>,
        decorators: Vec<PyNode>,
        type_params: Option<Vec<PyNode>>,
    },
    Return { value: Option<Box<PyNode>> },
    Delete { targets: Vec<PyNode> },
    TypeAlias { name: Box<PyNode>, type_params: Option<Vec<PyNode>>, value: Box<PyNode> },
    Assign { targets: Vec<PyNode>, value: Box<PyNode> },
    AugAssign { target: Box<PyNode>, value: Box<PyNode> },
    AnnAssign { target: Box<PyNode>, annotation: Box<PyNode>, value: Option<Box<PyNode>> },
    For { is_async: bool, target: Box<PyNode>, iter: Box<PyNode>, body: Vec<PyNode>, orelse: Vec<PyNode> },
    While { test: Box<PyNode>, body: Vec<PyNode>, orelse: Vec<PyNode> },
    If { test: Box<PyNode>, body: Vec<PyNode>, clauses: Vec<ElifElse> },
    With { is_async: bool, items: Vec<PyNode>, body: Vec<PyNode> },
    Match { subject: Box<PyNode>, cases: Vec<PyNode> },
    Raise { exc: Option<Box<PyNode>>, cause: Option<Box<PyNode>> },
    Try { is_star: bool, body: Vec<PyNode>, handlers: Vec<PyNode>, orelse: Vec<PyNode>, finalbody: Vec<PyNode> },
    Assert { test: Box<PyNode>, msg: Option<Box<PyNode>> },
    /// An import: the imported names as the walk reads them, and their
    /// `alias` nodes.
    Import { imported: Vec<ImportName>, names: Vec<PyNode> },
    ImportFrom { module: Option<String>, imported: Vec<ImportName>, names: Vec<PyNode> },
    /// An expression statement.
    Expr { value: Box<PyNode> },
    Global,
    Nonlocal,
    Pass,
    Break,
    Continue,
    IpyEscapeCommand,
    BoolOp { values: Vec<PyNode> },
    NamedExpr { target: Box<PyNode>, value: Box<PyNode> },
    BinOp { left: Box<PyNode>, right: Box<PyNode> },
    UnaryOp { operand: Box<PyNode> },
    /// A lambda; `args` is absent when it has no parameters.
    Lambda { args: Option<Box<PyNode>>, body: Box<PyNode> },
    IfExp { test: Box<PyNode>, body: Box<PyNode>, orelse: Box<PyNode> },
    Dict { items: Vec<DictItem> },
    SetDisplay { elts: Vec<PyNode> },
    ListComp { elt: Box<PyNode>, generators: Vec<PyNode> },
    SetComp { elt: Box<PyNode>, generators: Vec<PyNode> },
    DictComp { key: Option<Box<PyNode>>, value: Box<PyNode>, generators: Vec<PyNode> },
    GeneratorExp { elt: Box<PyNode>, generators: Vec<PyNode> },
    Await { value: Box<PyNode> },
    Yield { value: Option<Box<PyNode>> },
    YieldFrom { value: Box<PyNode> },
    Compare { left: Box<PyNode>, comparators: Vec<PyNode> },
    /// A call: what the tests read of it, and its child nodes.
    Call { call: CallExpr, func: Box<PyNode>, args: Vec<PyNode>, keywords: Vec<PyNode> },
    /// An f-string (`template` false) or a t-string (true).
    JoinedStr { template: bool, values: Option<Vec<PyNode>> },
    /// A string constant.
    StrConst { value: String },
    /// A bytes constant.
    BytesConst { value: Vec<u8> },
    /// A constant of another type.
    Constant,
    Attribute { value: Box<PyNode> },
    Subscript { value: Box<PyNode>, slice: Box<PyNode> },
    Starred { value: Box<PyNode> },
    Name,
    List { elts: Vec<PyNode> },
    Tuple { elts: Vec<PyNode> },
    Slice { lower: Option<Box<PyNode>>, upper: Option<Box<PyNode>>, step: Option<Box<PyNode>> },
    ExceptHandler { type_: Option<Box<PyNode>>, body: Vec<PyNode> },
    /// CPython's `arguments`.
    Arguments {
        posonlyargs: Vec<Param>,
        args: Vec<Param>,
        vararg: Option<Box<PyNode>>,
        kwonlyargs: Vec<Param>,
        kwarg: Option<Box<PyNode>>,
    },
    /// CPython's `arg`.
    Arg { annotation: Option<Box<PyNode>> },
    Keyword { value: Box<PyNode> },
    Alias,
    WithItem { context_expr: Box<PyNode>, optional_vars: Option<Box<PyNode>> },
    Comprehension { target: Box<PyNode>, iter: Box<PyNode>, ifs: Vec<PyNode> },
    MatchCase { pattern: Box<PyNode>, guard: Option<Box<PyNode>>, body: Vec<PyNode> },
    MatchValue { value: Box<PyNode> },
    MatchSingleton,
    MatchSequence { patterns: Vec<PyNode> },
    MatchMapping { keys: Vec<PyNode>, patterns: Vec<PyNode> },
    MatchClass { cls: Box<PyNode>, patterns: Vec<PyNode>, kwd_patterns: Vec<PyNode> },
    MatchStar,
    MatchAs { pattern: Option<Box<PyNode>> },
    MatchOr { patterns: Vec<PyNode> },
    TypeVar { bound: Option<Box<PyNode>>, default: Option<Box<PyNode>> },
    ParamSpec { default: Option<Box<PyNode>> },
    TypeVarTuple { default: Option<Box<PyNode>> },
    /// A merged literal segment of an f-string or t-string.
    JoinedConst { value: String },
    /// A replacement field of an f-string (`template` false) or t-string;
    /// `spec` is its format spec, a [`PyNode::FormatSpec`].
    FormattedValue { template: bool, value: Box<PyNode>, spec: Option<Box<PyNode>> },
    /// The string synthesised for a format spec.
    FormatSpec { values: Vec<PyNode> },
}

/// CPython's class name of a node (`node.__class__.__name__`).
pub open spec fn class_name_spec(n: PyNode) -> Seq<char> {
    match n {
        PyNode::Module { .. } => "Module"@,
        PyNode::FunctionDef { is_async, .. } => if is_async { "AsyncFunctionDef"@ } else { "FunctionDef"@ },
        PyNode::ClassDef { .. } => "ClassDef"@,
        PyNode::Return { .. } => "Return"@,
        PyNode::Delete { .. } => "Delete"@,
        PyNode::TypeAlias { .. } => "TypeAlias"@,
        PyNode::Assign { .. } => "Assign"@,
        PyNode::AugAssign { .. } => "AugAssign"@,
        PyNode::AnnAssign { .. } => "AnnAssign"@,
        PyNode::For { is_async, .. } => if is_async { "AsyncFor"@ } else { "For"@ },
        PyNode::While { .. } => "While"@,
        PyNode::If { .. } => "If"@,
        PyNode::With { is_async, .. } => if is_async { "AsyncWith"@ } else { "With"@ },
        PyNode::Match { .. } => "Match"@,
        PyNode::Raise { .. } => "Raise"@,
        PyNode::Try { is_star, .. } => if is_star { "TryStar"@ } else { "Try"@ },
        PyNode::Assert { .. } => "Assert"@,
        PyNode::Import { .. } => "Import"@,
        PyNode::ImportFrom { .. } => "ImportFrom"@,
        PyNode::Expr { .. } => "Expr"@,
        PyNode::Global => "Global"@,
        PyNode::Nonlocal => "Nonlocal"@,
        PyNode::Pass => "Pass"@,
        PyNode::Break => "Break"@,
        PyNode::Continue => "Continue"@,
        PyNode::IpyEscapeCommand => "IpyEscapeCommand"@,
        PyNode::BoolOp { .. } => "BoolOp"@,
        PyNode::NamedExpr { .. } => "NamedExpr"@,
        PyNode::BinOp { .. } => "BinOp"@,
        PyNode::UnaryOp { .. } => "UnaryOp"@,
        PyNode::Lambda { .. } => "Lambda"@,
        PyNode::IfExp { .. } => "IfExp"@,
        PyNode::Dict { .. } => "Dict"@,
        PyNode::SetDisplay { .. } => "Set"@,
        PyNode::ListComp { .. } => "ListComp"@,
        PyNode::SetComp { .. } => "SetComp"@,
        PyNode::DictComp { .. } => "DictComp"@,
        PyNode::GeneratorExp { .. } => "GeneratorExp"@,
        PyNode::Await { .. } => "Await"@,
        PyNode::Yield { .. } => "Yield"@,
        PyNode::YieldFrom { .. } => "YieldFrom"@,
        PyNode::Compare { .. } => "Compare"@,
        PyNode::Call { .. } => "Call"@,
        PyNode::JoinedStr { template, .. } => if template { "TemplateStr"@ } else { "JoinedStr"@ },
        PyNode::StrConst { .. } => "Constant"@,
        PyNode::BytesConst { .. } => "Constant"@,
        PyNode::Constant => "Constant"@,
        PyNode::Attribute { .. } => "Attribute"@,
        PyNode::Subscript { .. } => "Subscript"@,
        PyNode::Starred { .. } => "Starred"@,
        PyNode::Name => "Name"@,
        PyNode::List { .. } => "List"@,
        PyNode::Tuple { .. } => "Tuple"@,
        PyNode::Slice { .. } => "Slice"@,
        PyNode::ExceptHandler { .. } => "ExceptHandler"@,
        PyNode::Arguments { .. } => "arguments"@,
        PyNode::Arg { .. } => "arg"@,
        PyNode::Keyword { .. } => "keyword"@,
        PyNode::Alias => "alias"@,
        PyNode::WithItem { .. } => "withitem"@,
        PyNode::Comprehension { .. } => "comprehension"@,
        PyNode::MatchCase { .. } => "match_case"@,
        PyNode::MatchValue { .. } => "MatchValue"@,
        PyNode::MatchSingleton => "MatchSingleton"@,
        PyNode::MatchSequence { .. } => "MatchSequence"@,
        PyNode::MatchMapping { .. } => "MatchMapping"@,
        PyNode::MatchClass { .. } => "MatchClass"@,
        PyNode::MatchStar => "MatchStar"@,
        PyNode::MatchAs { .. } => "MatchAs"@,
        PyNode::MatchOr { .. } => "MatchOr"@,
        PyNode::TypeVar { .. } => "TypeVar"@,
        PyNode::ParamSpec { .. } => "ParamSpec"@,
        PyNode::TypeVarTuple { .. } => "TypeVarTuple"@,
        PyNode::JoinedConst { .. } => "Constant"@,
        PyNode::FormattedValue { template, .. } => if template { "Interpolation"@ } else { "FormattedValue"@ },
        PyNode::FormatSpec { .. } => "JoinedStr"@,
    }
}

/// CPython's class name of a node.
pub fn class_name(node: &PyNode) -> (r: &'static str)
    ensures
        r@ == class_name_spec(*node),
{
    match node {
        PyNode::Module { .. } => "Module",
        PyNode::FunctionDef { is_async, .. } => if *is_async { "AsyncFunctionDef" } else { "FunctionDef" },
        PyNode::ClassDef { .. } => "ClassDef",
        PyNode::Return { .. } => "Return",
        PyNode::Delete { .. } => "Delete",
        PyNode::TypeAlias { .. } => "TypeAlias",
        PyNode::Assign { .. } => "Assign",
        PyNode::AugAssign { .. } => "AugAssign",
        PyNode::AnnAssign { .. } => "AnnAssign",
        PyNode::For { is_async, .. } => if *is_async { "AsyncFor" } else { "For" },
        PyNode::While { .. } => "While",
        PyNode::If { .. } => "If",
        PyNode::With { is_async, .. } => if *is_async { "AsyncWith" } else { "With" },
        PyNode::Match { .. } => "Match",
        PyNode::Raise { .. } => "Raise",
        PyNode::Try { is_star, .. } => if *is_star { "TryStar" } else { "Try" },
        PyNode::Assert { .. } => "Assert",
        PyNode::Import { .. } => "Import",
        PyNode::ImportFrom { .. } => "ImportFrom",
        PyNode::Expr { .. } => "Expr",
        PyNode::Global => "Global",
        PyNode::Nonlocal => "Nonlocal",
        PyNode::Pass => "Pass",
        PyNode::Break => "Break",
        PyNode::Continue => "Continue",
        PyNode::IpyEscapeCommand => "IpyEscapeCommand",
        PyNode::BoolOp { .. } => "BoolOp",
        PyNode::NamedExpr { .. } => "NamedExpr",
        PyNode::BinOp { .. } => "BinOp",
        PyNode::UnaryOp { .. } => "UnaryOp",
        PyNode::Lambda { .. } => "Lambda",
        PyNode::IfExp { .. } => "IfExp",
        PyNode::Dict { .. } => "Dict",
        PyNode::SetDisplay { .. } => "Set",
        PyNode::ListComp { .. } => "ListComp",
        PyNode::SetComp { .. } => "SetComp",
        PyNode::DictComp { .. } => "DictComp",
        PyNode::GeneratorExp { .. } => "GeneratorExp",
        PyNode::Await { .. } => "Await",
        PyNode::Yield { .. } => "Yield",
        PyNode::YieldFrom { .. } => "YieldFrom",
        PyNode::Compare { .. } => "Compare",
        PyNode::Call { .. } => "Call",
        PyNode::JoinedStr { template, .. } => if *template { "TemplateStr" } else { "JoinedStr" },
        PyNode::StrConst { .. } => "Constant",
        PyNode::BytesConst { .. } => "Constant",
        PyNode::Constant => "Constant",
        PyNode::Attribute { .. } => "Attribute",
        PyNode::Subscript { .. } => "Subscript",
        PyNode::Starred { .. } => "Starred",
        PyNode::Name => "Name",
        PyNode::List { .. } => "List",
        PyNode::Tuple { .. } => "Tuple",
        PyNode::Slice { .. } => "Slice",
        PyNode::ExceptHandler { .. } => "ExceptHandler",
        PyNode::Arguments { .. } => "arguments",
        PyNode::Arg { .. } => "arg",
        PyNode::Keyword { .. } => "keyword",
        PyNode::Alias => "alias",
        PyNode::WithItem { .. } => "withitem",
        PyNode::Comprehension { .. } => "comprehension",
        PyNode::MatchCase { .. } => "match_case",
        PyNode::MatchValue { .. } => "MatchValue",
        PyNode::MatchSingleton => "MatchSingleton",
        PyNode::MatchSequence { .. } => "MatchSequence",
        PyNode::MatchMapping { .. } => "MatchMapping",
        PyNode::MatchClass { .. } => "MatchClass",
        PyNode::MatchStar => "MatchStar",
        PyNode::MatchAs { .. } => "MatchAs",
        PyNode::MatchOr { .. } => "MatchOr",
        PyNode::TypeVar { .. } => "TypeVar",
        PyNode::ParamSpec { .. } => "ParamSpec",
        PyNode::TypeVarTuple { .. } => "TypeVarTuple",
        PyNode::JoinedConst { .. } => "Constant",
        PyNode::FormattedValue { template, .. } => if *template { "Interpolation" } else { "FormattedValue" },
        PyNode::FormatSpec { .. } => "JoinedStr",
    }
}

} // verus!
