//! The parse tree.
//!
//! Every node carries its source span (character offsets into the script)
//! for precise error reporting.

use crate::numbers::Number;
use vstd::prelude::*;

verus! {

/// A half-open character range `[lo, hi)` in the script text.
#[derive(Clone, Copy, PartialEq, Eq, Structural, Debug)]
pub struct Span {
    pub lo: usize,
    pub hi: usize,
}

#[derive(Clone, Copy, PartialEq, Eq, Structural, Debug)]
pub enum BinOp {
    Add,
    Sub,
    Mul,
    Div,
}

/// One argument of a call: positional, or named by `name = expr`.
pub struct Arg {
    pub name: Option<String>,
    pub name_span: Option<Span>,
    pub value: Expr,
}

pub enum Expr {
    /// A numeric literal, with its optional unit already attached.
    Num { value: Number, span: Span },
    /// A single-quoted string literal, unescaped.
    StrLit { value: String, span: Span },
    /// A variable reference.
    Ident { name: String, span: Span },
    /// An assignment; assignment is itself an expression.
    Assign { name: String, name_span: Span, rhs: Box<Expr>, span: Span },
    /// A left-associative binary operation.
    Bin { op: BinOp, lhs: Box<Expr>, rhs: Box<Expr>, span: Span },
    /// A builtin call.
    Call { name: String, name_span: Span, args: Vec<Arg>, span: Span },
}

pub enum Stmt {
    Expr(Expr),
    /// `for <var> in <range> { ... }`
    For { var: String, var_span: Span, range: Expr, range_span: Span, body: Vec<Stmt>, span: Span },
}

pub struct Program {
    pub stmts: Vec<Stmt>,
}

} // verus!
