//! The abstract syntax tree produced by lowering and consumed by the
//! interpreter, together with its mathematical model.
//!
//! Each executable node kind has a ghost counterpart (`ExprSpec`,
//! `StmtSpec`) over `Seq` and mathematical integers; contracts speak of
//! those models through the view functions defined here.

use vstd::prelude::*;

verus! {

/// Operators of unary expressions.
#[derive(Debug, Clone, Copy, PartialEq, Eq, Structural)]
pub enum UnaryOp {
    Negate,
}

/// Operators of binary expressions.
#[derive(Debug, Clone, Copy, PartialEq, Eq, Structural)]
pub enum BinaryOp {
    Add,
    Subtract,
    Multiply,
    Divide,
}

/// Names that statements bind and expressions reference.
pub type Identifier = String;

/// An expression node; tree-shaped, each node exclusively owns its children.
#[derive(Debug, PartialEq)]
pub enum Expr {
    Int(i64),
    Identifier(Identifier),
    Brane(Box<Brane>),
    Unary { op: UnaryOp, expr: Box<Expr> },
    Binary { op: BinaryOp, left: Box<Expr>, right: Box<Expr> },
}

/// A statement: a bare expression, or a binding of `target` in the
/// innermost scope.
#[derive(Debug, PartialEq)]
pub enum Statement {
    Expr(Expr),
    Assign { target: Identifier, expr: Expr },
}

/// An ordered sequence of statements forming one lexical block.
#[derive(Debug, PartialEq)]
pub struct Brane {
    pub statements: Vec<Statement>,
}

/// The root of a lowered program: exactly one top-level brane.
#[derive(Debug, PartialEq)]
pub struct Program {
    pub brane: Brane,
}

/// Ghost model of an expression.
#[verifier::ext_equal]
pub enum ExprSpec {
    Int(i64),
    Ident(Seq<char>),
    Brane(Seq<StmtSpec>),
    Unary(UnaryOp, Box<ExprSpec>),
    Binary(BinaryOp, Box<ExprSpec>, Box<ExprSpec>),
}

/// Ghost model of a statement.
#[verifier::ext_equal]
pub enum StmtSpec {
    Expr(ExprSpec),
    Assign(Seq<char>, ExprSpec),
}

/// Ghost model of an expression node.
pub open spec fn expr_view(e: Expr) -> ExprSpec
    decreases e,
{
    match e {
        Expr::Int(v) => ExprSpec::Int(v),
        Expr::Identifier(name) => ExprSpec::Ident(name@),
        Expr::Brane(b) => ExprSpec::Brane(stmts_view(b.statements@)),
        Expr::Unary { op, expr } => ExprSpec::Unary(op, Box::new(expr_view(*expr))),
        Expr::Binary { op, left, right } => ExprSpec::Binary(
            op,
            Box::new(expr_view(*left)),
            Box::new(expr_view(*right)),
        ),
    }
}

/// Ghost model of a statement node.
pub open spec fn stmt_view(s: Statement) -> StmtSpec
    decreases s,
{
    match s {
        Statement::Expr(e) => StmtSpec::Expr(expr_view(e)),
        Statement::Assign { target, expr } => StmtSpec::Assign(target@, expr_view(expr)),
    }
}

/// Ghost model of a statement sequence.
pub open spec fn stmts_view(ss: Seq<Statement>) -> Seq<StmtSpec>
    decreases ss,
{
    if ss.len() == 0 {
        Seq::empty()
    } else {
        stmts_view(ss.drop_last()).push(stmt_view(ss.last()))
    }
}

/// The model of a statement sequence is elementwise.
pub broadcast proof fn lemma_stmts_view(ss: Seq<Statement>)
    ensures
        (#[trigger] stmts_view(ss)).len() == ss.len(),
        forall|i: int| 0 <= i < ss.len() ==> stmts_view(ss)[i] == stmt_view(ss[i]),
    decreases ss.len(),
{
    if ss.len() > 0 {
        lemma_stmts_view(ss.drop_last());
    }
}

impl View for Expr {
    type V = ExprSpec;

    open spec fn view(&self) -> ExprSpec {
        expr_view(*self)
    }
}

impl View for Statement {
    type V = StmtSpec;

    open spec fn view(&self) -> StmtSpec {
        stmt_view(*self)
    }
}

impl View for Brane {
    type V = Seq<StmtSpec>;

    open spec fn view(&self) -> Seq<StmtSpec> {
        stmts_view(self.statements@)
    }
}

impl View for Program {
    type V = Seq<StmtSpec>;

    open spec fn view(&self) -> Seq<StmtSpec> {
        stmts_view(self.brane.statements@)
    }
}

} // verus!
