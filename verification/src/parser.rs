//! The lowering layer: it walks a concrete syntax tree and constructs
//! the typed AST, resolving operator tokens and rejecting the
//! syntactic forms the interpreter does not support.
//!
//! Each `build_*` function is proved to implement the corresponding
//! `lower_*_spec` function, the mathematical definition of lowering.

use vstd::prelude::*;
use vstd::string::StringExecFns;

use crate::ast::{BinaryOp, Brane, Expr, ExprSpec, Identifier, Program, Statement, StmtSpec};
use crate::ast::{lemma_stmts_view, stmts_view, UnaryOp};
use crate::cst::{add_rest_view, mul_rest_view, stmt_seq_view};
use crate::cst::{AddExprCst, AddExprCstSpec, AssignmentCst, BraneCst, BraneCstSpec};
use crate::cst::{BranesCst, BranesCstSpec, CharacterizableCst, CharacterizableCstSpec, CharInnerCst};
use crate::cst::{CharInnerCstSpec, ExprCst, ExprCstSpec, IdentCst, IdentCstSpec, LiteralCst};
use crate::cst::{MulExprCst, MulExprCstSpec, PostfixExprCst, PostfixExprCstSpec, PrefixOp};
use crate::cst::{PrimaryCst, PrimaryCstSpec, ProgramCst, ProgramCstSpec, StandardBraneCst};
use crate::cst::{StmtCst, StmtCstSpec, UnaryExprCst, UnaryExprCstSpec};
use crate::cst::{lemma_add_rest_view, lemma_mul_rest_view, lemma_stmt_seq_view};
use crate::lexer::{str_chars, TokKind, TokenSpec};

verus! {

/// An error produced while turning source text into an AST.
#[derive(Debug, Clone, PartialEq)]
pub enum ParseError {
    /// Malformed input text, with the 1-based line and column of the
    /// offending token and a diagnostic message.
    Syntax { line: usize, column: usize, message: String },
    /// A syntactically valid construct the interpreter intentionally
    /// does not implement yet.
    Unsupported(String),
    /// A grammar/lowering invariant violation; a bug, not user input.
    Internal(String),
}

/// Ghost model of a lowering error.
#[verifier::ext_equal]
pub enum ParseErrSpec {
    Syntax { line: int, column: int, message: Seq<char> },
    Unsupported(Seq<char>),
    Internal(Seq<char>),
}

impl View for ParseError {
    type V = ParseErrSpec;

    open spec fn view(&self) -> ParseErrSpec {
        match self {
            ParseError::Syntax { line, column, message } => ParseErrSpec::Syntax {
                line: *line as int,
                column: *column as int,
                message: message@,
            },
            ParseError::Unsupported(m) => ParseErrSpec::Unsupported(m@),
            ParseError::Internal(m) => ParseErrSpec::Internal(m@),
        }
    }
}

/// Whether `c` is a decimal digit.
pub open spec fn is_digit_char(c: char) -> bool {
    '0' as int <= c as int <= '9' as int
}

/// Whether every character of `s` is a decimal digit.
pub open spec fn is_digits(s: Seq<char>) -> bool {
    forall|i: int| 0 <= i < s.len() ==> is_digit_char(#[trigger] s[i])
}

/// The number a string of decimal digits denotes.
pub open spec fn digits_val(s: Seq<char>) -> int
    decreases s,
{
    if s.len() == 0 {
        0
    } else {
        digits_val(s.drop_last()) * 10 + (s.last() as int - '0' as int)
    }
}

/// A digit string denotes a nonnegative number.
pub proof fn lemma_digits_val_nonneg(s: Seq<char>)
    requires
        is_digits(s),
    ensures
        digits_val(s) >= 0,
    decreases s.len(),
{
    if s.len() > 0 {
        assert(is_digits(s.drop_last()));
        lemma_digits_val_nonneg(s.drop_last());
    }
}

/// The meaning of lowering a program node: exactly one brane.
pub open spec fn lower_program_spec(p: ProgramCstSpec) -> Result<Seq<StmtSpec>, ParseErrSpec> {
    lower_branes_spec(p.branes)
}

/// The meaning of lowering a brane list: more than one brane is not
/// supported.
pub open spec fn lower_branes_spec(b: BranesCstSpec) -> Result<Seq<StmtSpec>, ParseErrSpec>
    decreases b, 0int,
{
    if b.branes.len() != 1 {
        Err(ParseErrSpec::Unsupported("multiple branes are not currently supported"@))
    } else {
        lower_brane_spec(b.branes[0])
    }
}

/// The meaning of lowering a brane production.
pub open spec fn lower_brane_spec(b: BraneCstSpec) -> Result<Seq<StmtSpec>, ParseErrSpec>
    decreases b, 0int,
{
    match b {
        BraneCstSpec::Standard(ss) => lower_stmts_spec(ss),
    }
}

/// The meaning of lowering a statement list, in source order; the
/// first error aborts.
pub open spec fn lower_stmts_spec(ss: Seq<StmtCstSpec>) -> Result<Seq<StmtSpec>, ParseErrSpec>
    decreases ss, 0int,
{
    if ss.len() == 0 {
        Ok(Seq::empty())
    } else {
        match lower_statement_spec(ss[0]) {
            Ok(s) => match lower_stmts_spec(ss.subrange(1, ss.len() as int)) {
                Ok(rest) => Ok(seq![s] + rest),
                Err(err) => Err(err),
            },
            Err(err) => Err(err),
        }
    }
}

/// The meaning of lowering one statement production.
pub open spec fn lower_statement_spec(s: StmtCstSpec) -> Result<StmtSpec, ParseErrSpec>
    decreases s, 0int,
{
    match s {
        StmtCstSpec::Assignment(t, e) => lower_assignment_spec(t, e),
        StmtCstSpec::Expr(e) => match lower_expr_spec(e) {
            Ok(ee) => Ok(StmtSpec::Expr(ee)),
            Err(err) => Err(err),
        },
        StmtCstSpec::Empty => Err(ParseErrSpec::Unsupported("empty statement"@)),
    }
}

/// The meaning of lowering an assignment: a plain identifier target
/// and a lowered right-hand side.
pub open spec fn lower_assignment_spec(t: IdentCstSpec, e: ExprCstSpec) -> Result<
    StmtSpec,
    ParseErrSpec,
>
    decreases e, 1int,
{
    match extract_identifier_spec(t) {
        Ok(name) => match lower_expr_spec(e) {
            Ok(ee) => Ok(StmtSpec::Assign(name, ee)),
            Err(err) => Err(err),
        },
        Err(err) => Err(err),
    }
}

/// The meaning of reading an identifier: the apostrophe-delimited form
/// is not supported.
pub open spec fn extract_identifier_spec(i: IdentCstSpec) -> Result<Seq<char>, ParseErrSpec> {
    if i.apostrophe {
        Err(ParseErrSpec::Unsupported("apostrophe-delimited identifiers are not supported"@))
    } else {
        Ok(i.name)
    }
}

/// The meaning of lowering an expression production.
pub open spec fn lower_expr_spec(e: ExprCstSpec) -> Result<ExprSpec, ParseErrSpec>
    decreases e, 0int,
{
    match e {
        ExprCstSpec::Add(a) => lower_add_expr_spec(a),
        ExprCstSpec::Branes(b) => match lower_branes_spec(*b) {
            Ok(ss) => Ok(ExprSpec::Brane(ss)),
            Err(err) => Err(err),
        },
        ExprCstSpec::If => Err(ParseErrSpec::Unsupported("if expressions are not supported"@)),
    }
}

/// The additive operator a token denotes; token identity, not
/// position, decides.
pub open spec fn add_op_spec(t: TokenSpec) -> Result<BinaryOp, ParseErrSpec> {
    if t.kind == TokKind::Plus {
        Ok(BinaryOp::Add)
    } else if t.kind == TokKind::Minus {
        Ok(BinaryOp::Subtract)
    } else {
        Err(ParseErrSpec::Unsupported("unsupported additive operator token"@))
    }
}

/// The multiplicative operator a token denotes.
pub open spec fn mul_op_spec(t: TokenSpec) -> Result<BinaryOp, ParseErrSpec> {
    if t.kind == TokKind::Star {
        Ok(BinaryOp::Multiply)
    } else if t.kind == TokKind::Slash {
        Ok(BinaryOp::Divide)
    } else {
        Err(ParseErrSpec::Unsupported("unsupported multiplicative operator token"@))
    }
}

/// The meaning of lowering an additive chain: left-associative folding
/// of the operand list.
pub open spec fn lower_add_expr_spec(a: AddExprCstSpec) -> Result<ExprSpec, ParseErrSpec>
    decreases a, 0int,
{
    match lower_mul_expr_spec(a.first) {
        Ok(first) => lower_add_chain_spec(first, a.rest),
        Err(err) => Err(err),
    }
}

/// Folding the tail of an additive chain onto an accumulated left
/// operand.
pub open spec fn lower_add_chain_spec(
    acc: ExprSpec,
    rest: Seq<(TokenSpec, MulExprCstSpec)>,
) -> Result<ExprSpec, ParseErrSpec>
    decreases rest, 0int,
{
    if rest.len() == 0 {
        Ok(acc)
    } else {
        match add_op_spec(rest[0].0) {
            Ok(op) => match lower_mul_expr_spec(rest[0].1) {
                Ok(right) => lower_add_chain_spec(
                    ExprSpec::Binary(op, Box::new(acc), Box::new(right)),
                    rest.subrange(1, rest.len() as int),
                ),
                Err(err) => Err(err),
            },
            Err(err) => Err(err),
        }
    }
}

/// The meaning of lowering a multiplicative chain.
pub open spec fn lower_mul_expr_spec(m: MulExprCstSpec) -> Result<ExprSpec, ParseErrSpec>
    decreases m, 0int,
{
    match lower_unary_expr_spec(m.first) {
        Ok(first) => lower_mul_chain_spec(first, m.rest),
        Err(err) => Err(err),
    }
}

/// Folding the tail of a multiplicative chain.
pub open spec fn lower_mul_chain_spec(
    acc: ExprSpec,
    rest: Seq<(TokenSpec, UnaryExprCstSpec)>,
) -> Result<ExprSpec, ParseErrSpec>
    decreases rest, 0int,
{
    if rest.len() == 0 {
        Ok(acc)
    } else {
        match mul_op_spec(rest[0].0) {
            Ok(op) => match lower_unary_expr_spec(rest[0].1) {
                Ok(right) => lower_mul_chain_spec(
                    ExprSpec::Binary(op, Box::new(acc), Box::new(right)),
                    rest.subrange(1, rest.len() as int),
                ),
                Err(err) => Err(err),
            },
            Err(err) => Err(err),
        }
    }
}

/// The meaning of lowering a unary expression: a leading `-` negates,
/// a leading `*` is reserved and not supported.
pub open spec fn lower_unary_expr_spec(u: UnaryExprCstSpec) -> Result<ExprSpec, ParseErrSpec>
    decreases u, 0int,
{
    match lower_postfix_expr_spec(*u.postfix) {
        Ok(e) => match u.prefix {
            Option::None => Ok(e),
            Option::Some(PrefixOp::Minus) => Ok(ExprSpec::Unary(UnaryOp::Negate, Box::new(e))),
            Option::Some(PrefixOp::Star) => Err(
                ParseErrSpec::Unsupported("unary '*' is not supported"@),
            ),
        },
        Err(err) => Err(err),
    }
}

/// The meaning of lowering a postfix expression: member access is not
/// supported, so a chain degrades to its primary.
pub open spec fn lower_postfix_expr_spec(p: PostfixExprCstSpec) -> Result<ExprSpec, ParseErrSpec>
    decreases p, 0int,
{
    if p.members.len() > 0 {
        Err(ParseErrSpec::Unsupported("member access is not supported"@))
    } else {
        lower_primary_spec(p.primary)
    }
}

/// The meaning of lowering a primary expression.
pub open spec fn lower_primary_spec(p: PrimaryCstSpec) -> Result<ExprSpec, ParseErrSpec>
    decreases p, 0int,
{
    match p {
        PrimaryCstSpec::Characterizable(c) => lower_characterizable_spec(c),
        PrimaryCstSpec::Paren(e) => lower_expr_spec(*e),
        PrimaryCstSpec::Unknown(_) => Err(ParseErrSpec::Unsupported("unknown literal"@)),
    }
}

/// The meaning of lowering a characterizable value; an apostrophe
/// prefix is reserved and not supported.
pub open spec fn lower_characterizable_spec(c: CharacterizableCstSpec) -> Result<
    ExprSpec,
    ParseErrSpec,
>
    decreases c, 0int,
{
    if c.apostrophe {
        Err(ParseErrSpec::Unsupported("prefixed characterizable values"@))
    } else {
        match *c.inner {
            CharInnerCstSpec::Ident(i) => match extract_identifier_spec(i) {
                Ok(n) => Ok(ExprSpec::Ident(n)),
                Err(err) => Err(err),
            },
            CharInnerCstSpec::Literal(t) => lower_literal_spec(t),
            CharInnerCstSpec::Brane(b) => match lower_brane_spec(*b) {
                Ok(ss) => Ok(ExprSpec::Brane(ss)),
                Err(err) => Err(err),
            },
        }
    }
}

/// The meaning of lowering an integer literal: the text must be
/// decimal digits denoting a value that fits in 64 signed bits.
pub open spec fn lower_literal_spec(t: TokenSpec) -> Result<ExprSpec, ParseErrSpec> {
    if t.text.len() > 0 && is_digits(t.text) && digits_val(t.text) <= i64::MAX as int {
        Ok(ExprSpec::Int(digits_val(t.text) as i64))
    } else {
        Err(
            ParseErrSpec::Unsupported(
                "invalid integer literal '"@ + t.text + "'"@,
            ),
        )
    }
}

/// The meaning of the whole pipeline: tokenize, parse, then lower.
pub open spec fn program_of_source(s: Seq<char>) -> Result<Seq<StmtSpec>, ParseErrSpec> {
    match crate::syntax::parse_program_spec(crate::lexer::spec_lex(s, 0, 1, 1)) {
        Ok(p) => lower_program_spec(p),
        Err(e) => Err(e),
    }
}

/// Parse source text: tokenize it, parse the concrete syntax tree,
/// and lower it to an AST.
pub fn parse_program(source: &str) -> (r: Result<Program, ParseError>)
    requires
        source@.len() < usize::MAX,
    ensures
        match r {
            Ok(p) => program_of_source(source@) == Ok::<Seq<StmtSpec>, ParseErrSpec>(p@),
            Err(pe) => program_of_source(source@) == Err::<Seq<StmtSpec>, ParseErrSpec>(pe@),
        },
{
    let cs = str_chars(source);
    let toks = crate::lexer::lex(&cs);
    let cst = match crate::syntax::parse_program_cst(&toks) {
        Ok(c) => c,
        Err(e) => {
            return Err(e);
        },
    };
    build_program(&cst)
}

/// Lower a program node: requires exactly one brane.
pub fn build_program(ctx: &ProgramCst) -> (r: Result<Program, ParseError>)
    ensures
        match r {
            Ok(p) => lower_program_spec(ctx@) == Ok::<Seq<StmtSpec>, ParseErrSpec>(p@),
            Err(pe) => lower_program_spec(ctx@) == Err::<Seq<StmtSpec>, ParseErrSpec>(pe@),
        },
{
    match build_branes(&ctx.branes) {
        Ok(brane) => Ok(Program { brane }),
        Err(e) => Err(e),
    }
}

/// Lower a brane list: more than one brane is rejected.
pub fn build_branes(ctx: &BranesCst) -> (r: Result<Brane, ParseError>)
    ensures
        match r {
            Ok(b) => lower_branes_spec(ctx@) == Ok::<Seq<StmtSpec>, ParseErrSpec>(b@),
            Err(pe) => lower_branes_spec(ctx@) == Err::<Seq<StmtSpec>, ParseErrSpec>(pe@),
        },
    decreases *ctx,
{
    proof {
        crate::cst::lemma_brane_seq_view(ctx.branes@);
    }
    if ctx.branes.len() != 1 {
        Err(ParseError::Unsupported("multiple branes are not currently supported".to_owned()))
    } else {
        build_brane(&ctx.branes[0])
    }
}

/// Lower a brane production; only the standard form is supported.
pub fn build_brane(ctx: &BraneCst) -> (r: Result<Brane, ParseError>)
    ensures
        match r {
            Ok(b) => lower_brane_spec(ctx@) == Ok::<Seq<StmtSpec>, ParseErrSpec>(b@),
            Err(pe) => lower_brane_spec(ctx@) == Err::<Seq<StmtSpec>, ParseErrSpec>(pe@),
        },
    decreases *ctx,
{
    match ctx {
        BraneCst::Standard(standard) => build_standard_brane(standard),
    }
}

/// Lower a standard brane: its statements in source order.
#[verifier::loop_isolation(false)]
pub fn build_standard_brane(ctx: &StandardBraneCst) -> (r: Result<Brane, ParseError>)
    ensures
        match r {
            Ok(b) => lower_stmts_spec(ctx@) == Ok::<Seq<StmtSpec>, ParseErrSpec>(b@),
            Err(pe) => lower_stmts_spec(ctx@) == Err::<Seq<StmtSpec>, ParseErrSpec>(pe@),
        },
    decreases *ctx,
{
    let ghost ss = stmt_seq_view(ctx.statements@);
    let mut statements: Vec<Statement> = Vec::new();
    proof {
        assert(ss.skip(0) =~= ss);
        match lower_stmts_spec(ss) {
            Ok(rest) => {
                assert(stmts_view(statements@) + rest =~= rest);
            },
            Err(_) => {},
        }
    }
    let mut i: usize = 0;
    while i < ctx.statements.len()
        invariant
            i <= ctx.statements@.len(),
            lower_stmts_spec(ss) == (match lower_stmts_spec(ss.skip(i as int)) {
                Ok(rest) => Ok(stmts_view(statements@) + rest),
                Err(e) => Err::<Seq<StmtSpec>, ParseErrSpec>(e),
            }),
        decreases ctx.statements@.len() - i,
    {
        proof {
            lemma_stmt_seq_view(ctx.statements@);
            assert(ss.skip(i as int)[0] == ss[i as int]);
            assert(ss.skip(i as int).subrange(1, ss.skip(i as int).len() as int) =~= ss.skip(
                i + 1,
            ));
        }
        let ghost stmts_before = statements@;
        let s = match build_statement(&ctx.statements[i]) {
            Ok(s) => s,
            Err(e) => {
                return Err(e);
            },
        };
        statements.push(s);
        i = i + 1;
        proof {
            lemma_stmts_view(statements@);
            assert(statements@.drop_last() =~= stmts_before);
            match lower_stmts_spec(ss.skip(i as int)) {
                Ok(rest) => {
                    assert(stmts_view(statements@) + rest =~= stmts_view(stmts_before) + (seq![
                        stmts_view(statements@).last(),
                    ] + rest));
                },
                Err(_) => {},
            }
        }
    }
    proof {
        lemma_stmt_seq_view(ctx.statements@);
        assert(ss.skip(i as int) =~= Seq::<StmtCstSpec>::empty());
        assert(stmts_view(statements@) + Seq::<StmtSpec>::empty() =~= stmts_view(statements@));
    }
    Ok(Brane { statements })
}

/// Lower one statement production.
pub fn build_statement(ctx: &StmtCst) -> (r: Result<Statement, ParseError>)
    ensures
        match r {
            Ok(s) => lower_statement_spec(ctx@) == Ok::<StmtSpec, ParseErrSpec>(s@),
            Err(pe) => lower_statement_spec(ctx@) == Err::<StmtSpec, ParseErrSpec>(pe@),
        },
    decreases *ctx,
{
    match ctx {
        StmtCst::Assignment(assign) => build_assignment(assign),
        StmtCst::Expr(expr) => match build_expr(expr) {
            Ok(e) => Ok(Statement::Expr(e)),
            Err(e) => Err(e),
        },
        StmtCst::Empty => Err(ParseError::Unsupported("empty statement".to_owned())),
    }
}

/// Lower an assignment: a plain identifier target and its expression.
pub fn build_assignment(ctx: &AssignmentCst) -> (r: Result<Statement, ParseError>)
    ensures
        match r {
            Ok(s) => lower_assignment_spec(ctx.target@, ctx.expr@) == Ok::<StmtSpec, ParseErrSpec>(
                s@,
            ),
            Err(pe) => lower_assignment_spec(ctx.target@, ctx.expr@) == Err::<
                StmtSpec,
                ParseErrSpec,
            >(pe@),
        },
    decreases *ctx,
{
    let target = match extract_identifier(&ctx.target) {
        Ok(t) => t,
        Err(e) => {
            return Err(e);
        },
    };
    let expr = match build_expr(&ctx.expr) {
        Ok(e) => e,
        Err(e) => {
            return Err(e);
        },
    };
    Ok(Statement::Assign { target, expr })
}

/// Lower an expression production.
pub fn build_expr(ctx: &ExprCst) -> (r: Result<Expr, ParseError>)
    ensures
        match r {
            Ok(e) => lower_expr_spec(ctx@) == Ok::<ExprSpec, ParseErrSpec>(e@),
            Err(pe) => lower_expr_spec(ctx@) == Err::<ExprSpec, ParseErrSpec>(pe@),
        },
    decreases *ctx,
{
    match ctx {
        ExprCst::Add(add) => build_add_expr(add),
        ExprCst::Branes(branes) => match build_branes(&**branes) {
            Ok(brane) => Ok(Expr::Brane(Box::new(brane))),
            Err(e) => Err(e),
        },
        ExprCst::If => Err(ParseError::Unsupported("if expressions are not supported".to_owned())),
    }
}

/// Lower an additive chain, combining left-associatively; the operator
/// token between two operands decides between addition and
/// subtraction.
#[verifier::loop_isolation(false)]
#[verifier::rlimit(30)]
pub fn build_add_expr(ctx: &AddExprCst) -> (r: Result<Expr, ParseError>)
    ensures
        match r {
            Ok(e) => lower_add_expr_spec(ctx@) == Ok::<ExprSpec, ParseErrSpec>(e@),
            Err(pe) => lower_add_expr_spec(ctx@) == Err::<ExprSpec, ParseErrSpec>(pe@),
        },
    decreases *ctx,
{
    let mut expr = match build_mul_expr(&ctx.first) {
        Ok(e) => e,
        Err(e) => {
            return Err(e);
        },
    };
    let ghost rest_v = add_rest_view(ctx.rest@);
    proof {
        assert(rest_v.skip(0) =~= rest_v);
    }
    let mut i: usize = 0;
    while i < ctx.rest.len()
        invariant
            i <= ctx.rest@.len(),
            lower_add_expr_spec(ctx@) == lower_add_chain_spec(expr@, rest_v.skip(i as int)),
        decreases ctx.rest@.len() - i,
    {
        proof {
            lemma_add_rest_view(ctx.rest@);
            assert(rest_v.skip(i as int)[0] == rest_v[i as int]);
            assert(rest_v.skip(i as int).subrange(1, rest_v.skip(i as int).len() as int)
                =~= rest_v.skip(i + 1));
        }
        let op = match ctx.rest[i].0.kind {
            TokKind::Plus => BinaryOp::Add,
            TokKind::Minus => BinaryOp::Subtract,
            _ => {
                return Err(
                    ParseError::Unsupported("unsupported additive operator token".to_owned()),
                );
            },
        };
        let right = match build_mul_expr(&ctx.rest[i].1) {
            Ok(e) => e,
            Err(e) => {
                return Err(e);
            },
        };
        expr = Expr::Binary { op, left: Box::new(expr), right: Box::new(right) };
        i = i + 1;
    }
    proof {
        lemma_add_rest_view(ctx.rest@);
        assert(rest_v.skip(i as int) =~= Seq::<(TokenSpec, MulExprCstSpec)>::empty());
    }
    Ok(expr)
}

/// Lower a multiplicative chain; the operator token decides between
/// multiplication and division.
#[verifier::loop_isolation(false)]
#[verifier::rlimit(30)]
pub fn build_mul_expr(ctx: &MulExprCst) -> (r: Result<Expr, ParseError>)
    ensures
        match r {
            Ok(e) => lower_mul_expr_spec(ctx@) == Ok::<ExprSpec, ParseErrSpec>(e@),
            Err(pe) => lower_mul_expr_spec(ctx@) == Err::<ExprSpec, ParseErrSpec>(pe@),
        },
    decreases *ctx,
{
    let mut expr = match build_unary_expr(&ctx.first) {
        Ok(e) => e,
        Err(e) => {
            return Err(e);
        },
    };
    let ghost rest_v = mul_rest_view(ctx.rest@);
    proof {
        assert(rest_v.skip(0) =~= rest_v);
    }
    let mut i: usize = 0;
    while i < ctx.rest.len()
        invariant
            i <= ctx.rest@.len(),
            lower_mul_expr_spec(ctx@) == lower_mul_chain_spec(expr@, rest_v.skip(i as int)),
        decreases ctx.rest@.len() - i,
    {
        proof {
            lemma_mul_rest_view(ctx.rest@);
            assert(rest_v.skip(i as int)[0] == rest_v[i as int]);
            assert(rest_v.skip(i as int).subrange(1, rest_v.skip(i as int).len() as int)
                =~= rest_v.skip(i + 1));
        }
        let op = match ctx.rest[i].0.kind {
            TokKind::Star => BinaryOp::Multiply,
            TokKind::Slash => BinaryOp::Divide,
            _ => {
                return Err(
                    ParseError::Unsupported("unsupported multiplicative operator token".to_owned()),
                );
            },
        };
        let right = match build_unary_expr(&ctx.rest[i].1) {
            Ok(e) => e,
            Err(e) => {
                return Err(e);
            },
        };
        expr = Expr::Binary { op, left: Box::new(expr), right: Box::new(right) };
        i = i + 1;
    }
    proof {
        lemma_mul_rest_view(ctx.rest@);
        assert(rest_v.skip(i as int) =~= Seq::<(TokenSpec, UnaryExprCstSpec)>::empty());
    }
    Ok(expr)
}

/// Lower a unary expression: a leading `-` wraps the postfix
/// expression in a negation; a leading `*` is rejected.
pub fn build_unary_expr(ctx: &UnaryExprCst) -> (r: Result<Expr, ParseError>)
    ensures
        match r {
            Ok(e) => lower_unary_expr_spec(ctx@) == Ok::<ExprSpec, ParseErrSpec>(e@),
            Err(pe) => lower_unary_expr_spec(ctx@) == Err::<ExprSpec, ParseErrSpec>(pe@),
        },
    decreases *ctx,
{
    let expr = match build_postfix_expr(&ctx.postfix) {
        Ok(e) => e,
        Err(e) => {
            return Err(e);
        },
    };
    match ctx.prefix {
        Option::None => Ok(expr),
        Option::Some(PrefixOp::Minus) => Ok(
            Expr::Unary { op: UnaryOp::Negate, expr: Box::new(expr) },
        ),
        Option::Some(PrefixOp::Star) => Err(
            ParseError::Unsupported("unary '*' is not supported".to_owned()),
        ),
    }
}

/// Lower a postfix expression: member access is rejected, so a chain
/// degrades to its primary.
pub fn build_postfix_expr(ctx: &PostfixExprCst) -> (r: Result<Expr, ParseError>)
    ensures
        match r {
            Ok(e) => lower_postfix_expr_spec(ctx@) == Ok::<ExprSpec, ParseErrSpec>(e@),
            Err(pe) => lower_postfix_expr_spec(ctx@) == Err::<ExprSpec, ParseErrSpec>(pe@),
        },
    decreases *ctx,
{
    proof {
        crate::cst::lemma_ident_seq_view(ctx.members@);
    }
    if ctx.members.len() > 0 {
        return Err(ParseError::Unsupported("member access is not supported".to_owned()));
    }
    build_primary(&ctx.primary)
}

/// Lower a primary expression: a characterizable value, a
/// parenthesized sub-expression, or an explicitly unknown literal.
pub fn build_primary(ctx: &PrimaryCst) -> (r: Result<Expr, ParseError>)
    ensures
        match r {
            Ok(e) => lower_primary_spec(ctx@) == Ok::<ExprSpec, ParseErrSpec>(e@),
            Err(pe) => lower_primary_spec(ctx@) == Err::<ExprSpec, ParseErrSpec>(pe@),
        },
    decreases *ctx,
{
    match ctx {
        PrimaryCst::Characterizable(c) => build_characterizable(c),
        PrimaryCst::Paren(expr) => build_expr(&**expr),
        PrimaryCst::Unknown(_) => Err(ParseError::Unsupported("unknown literal".to_owned())),
    }
}

/// Lower a characterizable value: an identifier reference, an integer
/// literal, or a nested brane; an apostrophe prefix is rejected.
pub fn build_characterizable(ctx: &CharacterizableCst) -> (r: Result<Expr, ParseError>)
    ensures
        match r {
            Ok(e) => lower_characterizable_spec(ctx@) == Ok::<ExprSpec, ParseErrSpec>(e@),
            Err(pe) => lower_characterizable_spec(ctx@) == Err::<ExprSpec, ParseErrSpec>(pe@),
        },
    decreases *ctx,
{
    if ctx.apostrophe {
        return Err(ParseError::Unsupported("prefixed characterizable values".to_owned()));
    }
    match &ctx.inner {
        CharInnerCst::Ident(ident) => match extract_identifier(ident) {
            Ok(name) => Ok(Expr::Identifier(name)),
            Err(e) => Err(e),
        },
        CharInnerCst::Literal(literal) => build_literal(literal),
        CharInnerCst::Brane(brane) => match build_brane(&**brane) {
            Ok(b) => Ok(Expr::Brane(Box::new(b))),
            Err(e) => Err(e),
        },
    }
}

/// Lower an integer literal: the token text must be base-10 digits
/// denoting a 64-bit signed value.
#[verifier::loop_isolation(false)]
pub fn build_literal(ctx: &LiteralCst) -> (r: Result<Expr, ParseError>)
    ensures
        match r {
            Ok(e) => lower_literal_spec(ctx@) == Ok::<ExprSpec, ParseErrSpec>(e@),
            Err(pe) => lower_literal_spec(ctx@) == Err::<ExprSpec, ParseErrSpec>(pe@),
        },
{
    let cs = str_chars(ctx.token.text.as_str());
    let ghost text = ctx.token.text@;
    let mut all_digits: bool = true;
    let mut overflow: bool = false;
    let mut acc: u64 = 0;
    let mut i: usize = 0;
    while i < cs.len()
        invariant
            i <= cs@.len(),
            all_digits <==> is_digits(text.take(i as int)),
            all_digits && !overflow ==> acc == digits_val(text.take(i as int)) && acc
                <= i64::MAX as u64,
            all_digits && overflow ==> digits_val(text.take(i as int)) > i64::MAX as int,
        decreases cs@.len() - i,
    {
        let c = cs[i];
        proof {
            assert(c == text[i as int]);
            assert(text.take(i + 1).drop_last() =~= text.take(i as int));
            assert(text.take(i + 1).last() == text[i as int]);
            if all_digits {
                assert(is_digits(text.take(i as int)));
                lemma_digits_val_nonneg(text.take(i as int));
            }
        }
        if c < '0' || c > '9' {
            all_digits = false;
            proof {
                assert(!is_digit_char(text[i as int]));
                assert(text.take(i + 1)[i as int] == text[i as int]);
                assert(!is_digits(text.take(i + 1)));
            }
        } else if all_digits && !overflow {
            proof {
                assert(is_digit_char(text[i as int]));
                assert(is_digits(text.take(i + 1)));
            }
            let d: u64 = (c as u32 - ('0' as u32)) as u64;
            if acc > (9223372036854775807u64 - d) / 10 {
                overflow = true;
                proof {
                    assert(acc * 10 + d > i64::MAX as int) by (nonlinear_arith)
                        requires
                            acc > (9223372036854775807u64 - d) / 10,
                            d <= 9,
                    ;
                }
            } else {
                proof {
                    assert(acc * 10 + d <= i64::MAX as int) by (nonlinear_arith)
                        requires
                            acc <= (9223372036854775807u64 - d) / 10,
                            d <= 9,
                    ;
                }
                acc = acc * 10 + d;
            }
        } else if all_digits {
            proof {
                assert(is_digit_char(text[i as int]));
                assert(is_digits(text.take(i + 1)));
                assert(digits_val(text.take(i + 1)) > i64::MAX as int) by (nonlinear_arith)
                    requires
                        digits_val(text.take(i + 1)) == digits_val(text.take(i as int)) * 10 + (
                        text[i as int] as int - '0' as int),
                        digits_val(text.take(i as int)) > i64::MAX as int,
                        text[i as int] as int - '0' as int >= 0,
                ;
            }
        }
        i = i + 1;
    }
    proof {
        assert(text.take(i as int) =~= text);
    }
    if cs.len() == 0 || !all_digits || overflow {
        proof {
            if overflow && all_digits {
                assert(digits_val(text) > i64::MAX as int);
            }
        }
        let mut message = String::from_str("invalid integer literal '");
        message.append(ctx.token.text.as_str());
        message.append("'");
        Err(ParseError::Unsupported(message))
    } else {
        Ok(Expr::Int(acc as i64))
    }
}

/// Read an assignment target: the apostrophe-delimited identifier form
/// is rejected.
pub fn extract_identifier(ctx: &IdentCst) -> (r: Result<Identifier, ParseError>)
    ensures
        match r {
            Ok(name) => extract_identifier_spec(ctx@) == Ok::<Seq<char>, ParseErrSpec>(name@),
            Err(pe) => extract_identifier_spec(ctx@) == Err::<Seq<char>, ParseErrSpec>(pe@),
        },
{
    if ctx.apostrophe {
        Err(ParseError::Unsupported("apostrophe-delimited identifiers are not supported".to_owned()))
    } else {
        Ok(ctx.name.clone())
    }
}

} // verus!
