//! The mathematical meaning of a program: a big-step evaluator over the
//! ghost models of the AST, values and scope stack.
//!
//! The executable interpreter in `ubc` is proved to implement these
//! functions. A scope is a map from identifier to value; a scope stack
//! is ordered innermost-last, and lookups search innermost to
//! outermost.

use vstd::prelude::*;

use crate::ast::{BinaryOp, ExprSpec, StmtSpec, UnaryOp};
use crate::ubc::{UbcErrSpec, ValueSpec};

verus! {

/// One lexical scope: identifier to value, last write wins.
pub type ScopeSpec = Map<Seq<char>, ValueSpec>;

/// A stack of scopes, innermost last.
pub type StackSpec = Seq<ScopeSpec>;

/// Negation with two's-complement wraparound on the extreme value.
pub open spec fn negate_i64(a: i64) -> i64 {
    if a == i64::MIN {
        i64::MIN
    } else {
        (-a) as i64
    }
}

/// Truncating division with two's-complement wraparound on the one
/// overflowing case; callers exclude a zero divisor.
pub open spec fn divide_i64(a: i64, b: i64) -> i64 {
    match a.checked_div(b) {
        Option::Some(q) => q,
        Option::None => i64::MIN,
    }
}

/// Meaning of a unary operator applied to a value.
pub open spec fn apply_unary(op: UnaryOp, v: ValueSpec) -> Result<ValueSpec, UbcErrSpec> {
    match (op, v) {
        (UnaryOp::Negate, ValueSpec::Int(a)) => Ok(ValueSpec::Int(negate_i64(a))),
        _ => Err(UbcErrSpec::UnsupportedOperation("unary op"@)),
    }
}

/// Meaning of a binary operator applied to two values: both operands
/// must be integers; addition, subtraction and multiplication wrap
/// around, and a zero right-hand divisor is an error.
pub open spec fn apply_binary(op: BinaryOp, l: ValueSpec, r: ValueSpec) -> Result<
    ValueSpec,
    UbcErrSpec,
> {
    match (l, r) {
        (ValueSpec::Int(a), ValueSpec::Int(b)) => match op {
            BinaryOp::Add => Ok(ValueSpec::Int(a.wrapping_add(b))),
            BinaryOp::Subtract => Ok(ValueSpec::Int(a.wrapping_sub(b))),
            BinaryOp::Multiply => Ok(ValueSpec::Int(a.wrapping_mul(b))),
            BinaryOp::Divide => if b == 0 {
                Err(UbcErrSpec::DivisionByZero)
            } else {
                Ok(ValueSpec::Int(divide_i64(a, b)))
            },
        },
        _ => Err(UbcErrSpec::UnsupportedOperation("binary op"@)),
    }
}

/// Lexical lookup: innermost scope first, first match wins.
pub open spec fn lookup_spec(stack: StackSpec, name: Seq<char>) -> Option<ValueSpec>
    decreases stack,
{
    if stack.len() == 0 {
        Option::None
    } else if stack.last().contains_key(name) {
        Option::Some(stack.last()[name])
    } else {
        lookup_spec(stack.drop_last(), name)
    }
}

/// Binding in the innermost scope, shadowing any outer binding.
pub open spec fn assign_spec(stack: StackSpec, name: Seq<char>, v: ValueSpec) -> StackSpec {
    if stack.len() == 0 {
        stack
    } else {
        stack.update(stack.len() - 1, stack.last().insert(name, v))
    }
}

/// Meaning of an expression in a scope stack. Expression evaluation
/// never changes the visible stack: a nested brane pushes one scope,
/// mutates only that scope, and pops it again.
pub open spec fn eval_expr_spec(stack: StackSpec, e: ExprSpec) -> Result<ValueSpec, UbcErrSpec>
    decreases e,
{
    match e {
        ExprSpec::Int(v) => Ok(ValueSpec::Int(v)),
        ExprSpec::Ident(name) => match lookup_spec(stack, name) {
            Option::Some(v) => Ok(v),
            Option::None => Err(UbcErrSpec::UnknownIdentifier(name)),
        },
        ExprSpec::Unary(op, e1) => match eval_expr_spec(stack, *e1) {
            Ok(v) => apply_unary(op, v),
            Err(err) => Err(err),
        },
        ExprSpec::Binary(op, l, r) => match eval_expr_spec(stack, *l) {
            Ok(lv) => match eval_expr_spec(stack, *r) {
                Ok(rv) => apply_binary(op, lv, rv),
                Err(err) => Err(err),
            },
            Err(err) => Err(err),
        },
        ExprSpec::Brane(ss) => match eval_stmts_spec(stack.push(Map::empty()), ss) {
            Ok((_, vals)) => Ok(
                if vals.len() == 0 {
                    ValueSpec::Nothing
                } else {
                    ValueSpec::Brane(vals)
                },
            ),
            Err(err) => Err(err),
        },
    }
}

/// Meaning of one statement: its value, and the stack after it. A bare
/// expression leaves the stack as it is; an assignment binds its target
/// in the innermost scope. Either way the statement's value is the
/// expression's value.
pub open spec fn eval_stmt_spec(stack: StackSpec, s: StmtSpec) -> Result<
    (StackSpec, ValueSpec),
    UbcErrSpec,
>
    decreases s,
{
    match s {
        StmtSpec::Expr(e) => match eval_expr_spec(stack, e) {
            Ok(v) => Ok((stack, v)),
            Err(err) => Err(err),
        },
        StmtSpec::Assign(name, e) => match eval_expr_spec(stack, e) {
            Ok(v) => Ok((assign_spec(stack, name, v), v)),
            Err(err) => Err(err),
        },
    }
}

/// Meaning of a statement sequence, in source order: the stack after
/// the last statement and the ordered values all of them produced. The
/// first error aborts the sequence.
pub open spec fn eval_stmts_spec(stack: StackSpec, ss: Seq<StmtSpec>) -> Result<
    (StackSpec, Seq<ValueSpec>),
    UbcErrSpec,
>
    decreases ss,
{
    if ss.len() == 0 {
        Ok((stack, Seq::empty()))
    } else {
        match eval_stmt_spec(stack, ss[0]) {
            Ok((stack2, v)) => match eval_stmts_spec(stack2, ss.subrange(1, ss.len() as int)) {
                Ok((stack3, vals)) => Ok((stack3, seq![v] + vals)),
                Err(err) => Err(err),
            },
            Err(err) => Err(err),
        }
    }
}

} // verus!
