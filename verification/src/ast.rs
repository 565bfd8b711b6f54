//! The Python syntax tree that the bundler's analyses and rewrites work on.
//!
//! Each node keeps what the bundler reads of it: names, the sub-expressions and
//! sub-statements it walks, and the literal values it inspects.
use vstd::prelude::*;

verus! {

/// Whether a name or attribute is read or written.
#[derive(Clone, Copy, Debug, PartialEq, Eq)]
pub enum ExprContext {
    Load,
    Store,
    Del,
}

/// A comparison operator.
#[derive(Clone, Copy, Debug, PartialEq, Eq)]
pub enum CmpOp {
    Eq,
    NotEq,
    Lt,
    LtE,
    Gt,
    GtE,
    Is,
    IsNot,
    In,
    NotIn,
}

/// A binary operator.
#[derive(Clone, Copy, Debug, PartialEq, Eq)]
pub enum Operator {
    Add,
    Sub,
    Mult,
    MatMult,
    Div,
    Mod,
    Pow,
    LShift,
    RShift,
    BitOr,
    BitXor,
    BitAnd,
    FloorDiv,
}

/// A Python expression.
#[derive(Debug, PartialEq, Eq)]
pub enum Expr {
    BoolOp(Vec<Expr>),
    Named { target: Box<Expr>, value: Box<Expr> },
    BinOp { left: Box<Expr>, op: Operator, right: Box<Expr> },
    UnaryOp(Box<Expr>),
    Lambda(Box<Expr>),
    IfExp { test: Box<Expr>, body: Box<Expr>, orelse: Box<Expr> },
    Dict(Vec<DictItem>),
    SetDisplay(Vec<Expr>),
    ListComp { elt: Box<Expr>, generators: Vec<Comprehension> },
    SetComp { elt: Box<Expr>, generators: Vec<Comprehension> },
    DictComp { key: Box<Expr>, value: Box<Expr>, generators: Vec<Comprehension> },
    Generator { elt: Box<Expr>, generators: Vec<Comprehension> },
    Await(Box<Expr>),
    Yield(Option<Box<Expr>>),
    /// `left op0 c0 op1 c1 ...`: one operator per comparator.
    Compare { left: Box<Expr>, ops: Vec<CmpOp>, comparators: Vec<Expr> },
    Call { func: Box<Expr>, args: Vec<Expr>, keywords: Vec<Keyword> },
    /// An f-string; the expressions interpolated into it.
    FString(Vec<Expr>),
    StringLiteral(String),
    BytesLiteral,
    /// A number literal, by its source text.
    NumberLiteral(String),
    BooleanLiteral(bool),
    NoneLiteral,
    EllipsisLiteral,
    Attribute { value: Box<Expr>, attr: String, ctx: ExprContext },
    Subscript { value: Box<Expr>, slice: Box<Expr> },
    Starred(Box<Expr>),
    /// A slice `lower:upper:step` (in a subscript).
    Slice { lower: Option<Box<Expr>>, upper: Option<Box<Expr>>, step: Option<Box<Expr>> },
    YieldFrom(Box<Expr>),
    Name { id: String, ctx: ExprContext },
    List(Vec<Expr>),
    Tuple(Vec<Expr>),
    /// Any other expression (template strings, `*` patterns, ...).
    Other,
}

/// A `key: value` entry of a dict display; `key` is absent for `**mapping`.
#[derive(Debug, PartialEq, Eq)]
pub struct DictItem {
    pub key: Option<Expr>,
    pub value: Expr,
}

/// A keyword argument of a call or class definition.
#[derive(Debug, PartialEq, Eq)]
pub struct Keyword {
    pub arg: Option<String>,
    pub value: Expr,
}

/// A `for ... in ... if ...` clause of a comprehension.
#[derive(Debug, PartialEq, Eq)]
pub struct Comprehension {
    pub target: Expr,
    pub iter: Expr,
    pub ifs: Vec<Expr>,
}

/// An imported name with its optional `as` name.
#[derive(Debug, PartialEq, Eq)]
pub struct Alias {
    pub name: String,
    pub asname: Option<String>,
}

/// A parameter of a function, with its optional annotation and default value.
#[derive(Debug, PartialEq, Eq)]
pub struct Parameter {
    pub name: String,
    pub annotation: Option<Expr>,
    pub default: Option<Expr>,
}

/// The parameter list of a function definition.
#[derive(Debug, PartialEq, Eq)]
pub struct Parameters {
    pub posonlyargs: Vec<Parameter>,
    pub args: Vec<Parameter>,
    pub vararg: Option<Parameter>,
    pub kwonlyargs: Vec<Parameter>,
    pub kwarg: Option<Parameter>,
}

/// An `elif` (with a test) or `else` (without) clause.
#[derive(Debug, PartialEq, Eq)]
pub struct ElifElseClause {
    pub test: Option<Expr>,
    pub body: Vec<Stmt>,
}

/// An item of a `with` statement.
#[derive(Debug, PartialEq, Eq)]
pub struct WithItem {
    pub context_expr: Expr,
    pub optional_vars: Option<Expr>,
}

/// A `case` clause of a `match` statement (its pattern is not kept).
#[derive(Debug, PartialEq, Eq)]
pub struct MatchCase {
    pub guard: Option<Expr>,
    pub body: Vec<Stmt>,
}

/// An `except` clause.
#[derive(Debug, PartialEq, Eq)]
pub struct ExceptHandler {
    pub type_: Option<Expr>,
    pub name: Option<String>,
    pub body: Vec<Stmt>,
}

/// A Python statement.
#[derive(Debug, PartialEq, Eq)]
pub enum Stmt {
    FunctionDef {
        name: String,
        decorators: Vec<Expr>,
        parameters: Parameters,
        return_type: Option<Expr>,
        body: Vec<Stmt>,
    },
    ClassDef {
        name: String,
        decorators: Vec<Expr>,
        bases: Vec<Expr>,
        keywords: Vec<Keyword>,
        body: Vec<Stmt>,
    },
    Return(Option<Expr>),
    Assign { targets: Vec<Expr>, value: Expr },
    AugAssign { target: Expr, value: Expr },
    AnnAssign { target: Expr, annotation: Expr, value: Option<Expr> },
    TypeAlias { value: Expr },
    For { target: Expr, iter: Expr, body: Vec<Stmt>, orelse: Vec<Stmt> },
    While { test: Expr, body: Vec<Stmt>, orelse: Vec<Stmt> },
    If { test: Expr, body: Vec<Stmt>, elif_else_clauses: Vec<ElifElseClause> },
    With { items: Vec<WithItem>, body: Vec<Stmt> },
    Try {
        body: Vec<Stmt>,
        handlers: Vec<ExceptHandler>,
        orelse: Vec<Stmt>,
        finalbody: Vec<Stmt>,
    },
    Import(Vec<Alias>),
    ImportFrom { module: Option<String>, names: Vec<Alias>, level: u32 },
    Global(Vec<String>),
    Expr(Expr),
    Pass,
    Raise { exc: Option<Expr>, cause: Option<Expr> },
    Assert { test: Expr, msg: Option<Expr> },
    Delete(Vec<Expr>),
    Match { subject: Expr, cases: Vec<MatchCase> },
    /// Any other statement (`nonlocal`, `break`, `continue`, ...).
    Other,
}

/// A parsed Python module.
#[derive(Debug, PartialEq, Eq)]
pub struct ModModule {
    pub body: Vec<Stmt>,
}

/// The name an alias binds: its `as` name, else its name.
pub open spec fn alias_local_name(a: Alias) -> Seq<char> {
    match a.asname {
        Some(n) => n@,
        None => a.name@,
    }
}

/// The name an alias binds: its `as` name, else its name.
pub fn local_name(a: &Alias) -> (r: &String)
    ensures
        r@ == alias_local_name(*a),
{
    match &a.asname {
        Some(n) => n,
        None => &a.name,
    }
}

} // verus!
