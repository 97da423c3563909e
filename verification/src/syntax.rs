//! The grammar: a recursive-descent parser from the token stream to
//! the concrete syntax tree.
//!
//! Each `parse_*` function is proved to implement the corresponding
//! `parse_*_spec` function; the token stream always ends in one `Eof`
//! token, so lookahead never runs off the end.

use vstd::prelude::*;

use crate::cst::{AddExprCst, AddExprCstSpec, AssignmentCst, BraneCst, BraneCstSpec, BranesCst};
use crate::cst::{BranesCstSpec, CharacterizableCst, CharacterizableCstSpec, CharInnerCst};
use crate::cst::{CharInnerCstSpec, ExprCst, ExprCstSpec, IdentCst, IdentCstSpec, LiteralCst};
use crate::cst::{MulExprCst, MulExprCstSpec, PostfixExprCst, PostfixExprCstSpec, PrefixOp};
use crate::cst::{PrimaryCst, PrimaryCstSpec, ProgramCst, ProgramCstSpec, StandardBraneCst};
use crate::cst::{StmtCst, StmtCstSpec, UnaryExprCst, UnaryExprCstSpec};
use crate::lexer::{tokens_view, TokKind, Token, TokenSpec};
use crate::parser::{ParseErrSpec, ParseError};

verus! {

/// The kind of the token at `i`; past the end it reads as `Eof`.
pub open spec fn peek_kind(t: Seq<TokenSpec>, i: int) -> TokKind {
    if 0 <= i < t.len() {
        t[i].kind
    } else {
        TokKind::Eof
    }
}

/// A syntax error at the token at `i`.
pub open spec fn syntax_at(t: Seq<TokenSpec>, i: int, msg: Seq<char>) -> ParseErrSpec {
    if 0 <= i < t.len() {
        ParseErrSpec::Syntax { line: t[i].line, column: t[i].column, message: msg }
    } else {
        ParseErrSpec::Syntax { line: 0, column: 0, message: msg }
    }
}

/// The error for a sub-parser that consumed nothing; a grammar
/// consistency check, not a user-facing syntax class.
pub open spec fn no_progress_err() -> ParseErrSpec {
    ParseErrSpec::Internal("parser did not advance"@)
}

/// Parse a whole token stream: a brane list followed by the end of
/// input.
pub open spec fn parse_program_spec(t: Seq<TokenSpec>) -> Result<ProgramCstSpec, ParseErrSpec> {
    match parse_branes_spec(t, 0) {
        Ok((bs, j)) => if peek_kind(t, j) == TokKind::Eof {
            Ok(ProgramCstSpec { branes: bs })
        } else {
            Err(syntax_at(t, j, "expected end of input"@))
        },
        Err(e) => Err(e),
    }
}

/// Parse one or more adjacent branes.
pub open spec fn parse_branes_spec(t: Seq<TokenSpec>, i: int) -> Result<
    (BranesCstSpec, int),
    ParseErrSpec,
>
    decreases t.len() - i, 8int,
{
    match parse_brane_spec(t, i) {
        Ok((b, j)) => if j <= i || j > t.len() {
            Err(no_progress_err())
        } else {
            parse_branes_more_spec(t, j, seq![b])
        },
        Err(e) => Err(e),
    }
}

/// Parse the remaining branes of a brane list.
pub open spec fn parse_branes_more_spec(
    t: Seq<TokenSpec>,
    i: int,
    acc: Seq<BraneCstSpec>,
) -> Result<(BranesCstSpec, int), ParseErrSpec>
    decreases t.len() - i, 8int,
{
    if peek_kind(t, i) == TokKind::LBrace {
        match parse_brane_spec(t, i) {
            Ok((b, j)) => if j <= i || j > t.len() {
                Err(no_progress_err())
            } else {
                parse_branes_more_spec(t, j, acc.push(b))
            },
            Err(e) => Err(e),
        }
    } else {
        Ok((BranesCstSpec { branes: acc }, i))
    }
}

/// Parse one brane: `{ stmt* }`.
pub open spec fn parse_brane_spec(t: Seq<TokenSpec>, i: int) -> Result<
    (BraneCstSpec, int),
    ParseErrSpec,
>
    decreases t.len() - i, 2int,
{
    if peek_kind(t, i) != TokKind::LBrace {
        Err(syntax_at(t, i, "expected '{'"@))
    } else {
        match parse_stmts_spec(t, i + 1, Seq::empty()) {
            Ok((ss, j)) => if peek_kind(t, j) == TokKind::RBrace {
                Ok((BraneCstSpec::Standard(ss), j + 1))
            } else {
                Err(syntax_at(t, j, "expected '}'"@))
            },
            Err(e) => Err(e),
        }
    }
}

/// Parse statements until a closing brace or the end of input.
pub open spec fn parse_stmts_spec(t: Seq<TokenSpec>, i: int, acc: Seq<StmtCstSpec>) -> Result<
    (Seq<StmtCstSpec>, int),
    ParseErrSpec,
>
    decreases t.len() - i, 12int,
{
    if peek_kind(t, i) == TokKind::RBrace || peek_kind(t, i) == TokKind::Eof {
        Ok((acc, i))
    } else {
        match parse_stmt_spec(t, i) {
            Ok((s, j)) => if j <= i || j > t.len() {
                Err(no_progress_err())
            } else {
                parse_stmts_spec(t, j, acc.push(s))
            },
            Err(e) => Err(e),
        }
    }
}

/// Whether the tokens at `i` begin an assignment.
pub open spec fn assign_start(t: Seq<TokenSpec>, i: int) -> bool {
    (peek_kind(t, i) == TokKind::Ident && peek_kind(t, i + 1) == TokKind::Equals) || (peek_kind(
        t,
        i,
    ) == TokKind::Apostrophe && peek_kind(t, i + 1) == TokKind::Ident && peek_kind(t, i + 2)
        == TokKind::Equals)
}

/// Parse one statement: empty, an assignment, or a bare expression,
/// each closed by a semicolon.
pub open spec fn parse_stmt_spec(t: Seq<TokenSpec>, i: int) -> Result<
    (StmtCstSpec, int),
    ParseErrSpec,
>
    decreases t.len() - i, 11int,
{
    if peek_kind(t, i) == TokKind::Semicolon {
        Ok((StmtCstSpec::Empty, i + 1))
    } else if assign_start(t, i) {
        parse_assignment_spec(t, i)
    } else {
        match parse_expr_spec(t, i) {
            Ok((e, j)) => if peek_kind(t, j) == TokKind::Semicolon {
                Ok((StmtCstSpec::Expr(e), j + 1))
            } else {
                Err(syntax_at(t, j, "expected ';'"@))
            },
            Err(e) => Err(e),
        }
    }
}

/// Parse an assignment: `target = expr ;`.
pub open spec fn parse_assignment_spec(t: Seq<TokenSpec>, i: int) -> Result<
    (StmtCstSpec, int),
    ParseErrSpec,
>
    decreases t.len() - i, 10int,
{
    match parse_char_ident_spec(t, i) {
        Ok((target, j)) => if j <= i || j > t.len() {
            Err(no_progress_err())
        } else if peek_kind(t, j) == TokKind::Equals {
            match parse_expr_spec(t, j + 1) {
                Ok((e, k)) => if peek_kind(t, k) == TokKind::Semicolon {
                    Ok((StmtCstSpec::Assignment(target, e), k + 1))
                } else {
                    Err(syntax_at(t, k, "expected ';'"@))
                },
                Err(e) => Err(e),
            }
        } else {
            Err(syntax_at(t, j, "expected '='"@))
        },
        Err(e) => Err(e),
    }
}

/// Parse an identifier occurrence, possibly apostrophe-delimited.
pub open spec fn parse_char_ident_spec(t: Seq<TokenSpec>, i: int) -> Result<
    (IdentCstSpec, int),
    ParseErrSpec,
> {
    if peek_kind(t, i) == TokKind::Apostrophe {
        if peek_kind(t, i + 1) == TokKind::Ident {
            Ok((IdentCstSpec { apostrophe: true, name: t[i + 1].text }, i + 2))
        } else {
            Err(syntax_at(t, i + 1, "expected an identifier"@))
        }
    } else if peek_kind(t, i) == TokKind::Ident {
        Ok((IdentCstSpec { apostrophe: false, name: t[i].text }, i + 1))
    } else {
        Err(syntax_at(t, i, "expected an identifier"@))
    }
}

/// Parse one expression: an `if` form, a brane list, or an additive
/// chain.
pub open spec fn parse_expr_spec(t: Seq<TokenSpec>, i: int) -> Result<
    (ExprCstSpec, int),
    ParseErrSpec,
>
    decreases t.len() - i, 9int,
{
    if peek_kind(t, i) == TokKind::KwIf {
        Ok((ExprCstSpec::If, i + 1))
    } else if peek_kind(t, i) == TokKind::LBrace {
        match parse_branes_spec(t, i) {
            Ok((bs, j)) => Ok((ExprCstSpec::Branes(Box::new(bs)), j)),
            Err(e) => Err(e),
        }
    } else {
        match parse_add_expr_spec(t, i) {
            Ok((a, j)) => Ok((ExprCstSpec::Add(a), j)),
            Err(e) => Err(e),
        }
    }
}

/// Parse an additive chain: a multiplicative expression followed by
/// `+`/`-` operands.
pub open spec fn parse_add_expr_spec(t: Seq<TokenSpec>, i: int) -> Result<
    (AddExprCstSpec, int),
    ParseErrSpec,
>
    decreases t.len() - i, 8int,
{
    match parse_mul_expr_spec(t, i) {
        Ok((first, j)) => if j <= i || j > t.len() {
            Err(no_progress_err())
        } else {
            match parse_add_more_spec(t, j, Seq::empty()) {
                Ok((rest, k)) => Ok((AddExprCstSpec { first, rest }, k)),
                Err(e) => Err(e),
            }
        },
        Err(e) => Err(e),
    }
}

/// Parse the remaining `+`/`-` operands of an additive chain.
pub open spec fn parse_add_more_spec(
    t: Seq<TokenSpec>,
    i: int,
    acc: Seq<(TokenSpec, MulExprCstSpec)>,
) -> Result<(Seq<(TokenSpec, MulExprCstSpec)>, int), ParseErrSpec>
    decreases t.len() - i, 8int,
{
    if peek_kind(t, i) == TokKind::Plus || peek_kind(t, i) == TokKind::Minus {
        match parse_mul_expr_spec(t, i + 1) {
            Ok((m, j)) => if j <= i || j > t.len() {
                Err(no_progress_err())
            } else {
                parse_add_more_spec(t, j, acc.push((t[i], m)))
            },
            Err(e) => Err(e),
        }
    } else {
        Ok((acc, i))
    }
}

/// Parse a multiplicative chain: a unary expression followed by
/// `*`/`/` operands.
pub open spec fn parse_mul_expr_spec(t: Seq<TokenSpec>, i: int) -> Result<
    (MulExprCstSpec, int),
    ParseErrSpec,
>
    decreases t.len() - i, 7int,
{
    match parse_unary_expr_spec(t, i) {
        Ok((first, j)) => if j <= i || j > t.len() {
            Err(no_progress_err())
        } else {
            match parse_mul_more_spec(t, j, Seq::empty()) {
                Ok((rest, k)) => Ok((MulExprCstSpec { first, rest }, k)),
                Err(e) => Err(e),
            }
        },
        Err(e) => Err(e),
    }
}

/// Parse the remaining `*`/`/` operands of a multiplicative chain.
pub open spec fn parse_mul_more_spec(
    t: Seq<TokenSpec>,
    i: int,
    acc: Seq<(TokenSpec, UnaryExprCstSpec)>,
) -> Result<(Seq<(TokenSpec, UnaryExprCstSpec)>, int), ParseErrSpec>
    decreases t.len() - i, 7int,
{
    if peek_kind(t, i) == TokKind::Star || peek_kind(t, i) == TokKind::Slash {
        match parse_unary_expr_spec(t, i + 1) {
            Ok((u, j)) => if j <= i || j > t.len() {
                Err(no_progress_err())
            } else {
                parse_mul_more_spec(t, j, acc.push((t[i], u)))
            },
            Err(e) => Err(e),
        }
    } else {
        Ok((acc, i))
    }
}

/// Parse a unary expression: an optional leading `-` or `*`, then a
/// postfix expression.
pub open spec fn parse_unary_expr_spec(t: Seq<TokenSpec>, i: int) -> Result<
    (UnaryExprCstSpec, int),
    ParseErrSpec,
>
    decreases t.len() - i, 6int,
{
    let prefix = if peek_kind(t, i) == TokKind::Minus {
        Option::Some(PrefixOp::Minus)
    } else if peek_kind(t, i) == TokKind::Star {
        Option::Some(PrefixOp::Star)
    } else {
        Option::None
    };
    let start = if prefix is Some {
        i + 1
    } else {
        i
    };
    match parse_postfix_expr_spec(t, start) {
        Ok((p, j)) => Ok((UnaryExprCstSpec { prefix, postfix: Box::new(p) }, j)),
        Err(e) => Err(e),
    }
}

/// Parse a postfix expression: a primary and its `.` member accesses.
pub open spec fn parse_postfix_expr_spec(t: Seq<TokenSpec>, i: int) -> Result<
    (PostfixExprCstSpec, int),
    ParseErrSpec,
>
    decreases t.len() - i, 5int,
{
    match parse_primary_spec(t, i) {
        Ok((p, j)) => if j <= i || j > t.len() {
            Err(no_progress_err())
        } else {
            match parse_postfix_more_spec(t, j, Seq::empty()) {
                Ok((ms, k)) => Ok((PostfixExprCstSpec { primary: p, members: ms }, k)),
                Err(e) => Err(e),
            }
        },
        Err(e) => Err(e),
    }
}

/// Parse the remaining `.` member accesses of a postfix chain.
pub open spec fn parse_postfix_more_spec(
    t: Seq<TokenSpec>,
    i: int,
    acc: Seq<IdentCstSpec>,
) -> Result<(Seq<IdentCstSpec>, int), ParseErrSpec>
    decreases t.len() - i, 5int,
{
    if peek_kind(t, i) == TokKind::Dot {
        match parse_char_ident_spec(t, i + 1) {
            Ok((id, j)) => if j <= i || j > t.len() {
                Err(no_progress_err())
            } else {
                parse_postfix_more_spec(t, j, acc.push(id))
            },
            Err(e) => Err(e),
        }
    } else {
        Ok((acc, i))
    }
}

/// Parse a primary expression: a parenthesized sub-expression, an
/// unknown literal token, or a characterizable value.
pub open spec fn parse_primary_spec(t: Seq<TokenSpec>, i: int) -> Result<
    (PrimaryCstSpec, int),
    ParseErrSpec,
>
    decreases t.len() - i, 4int,
{
    if peek_kind(t, i) == TokKind::LParen {
        match parse_expr_spec(t, i + 1) {
            Ok((e, j)) => if peek_kind(t, j) == TokKind::RParen {
                Ok((PrimaryCstSpec::Paren(Box::new(e)), j + 1))
            } else {
                Err(syntax_at(t, j, "expected ')'"@))
            },
            Err(e) => Err(e),
        }
    } else if peek_kind(t, i) == TokKind::Unknown {
        Ok((PrimaryCstSpec::Unknown(t[i]), i + 1))
    } else {
        match parse_characterizable_spec(t, i) {
            Ok((c, j)) => Ok((PrimaryCstSpec::Characterizable(c), j)),
            Err(e) => Err(e),
        }
    }
}

/// Parse a characterizable value: an optional apostrophe prefix, then
/// an identifier, an integer literal, or a nested brane.
pub open spec fn parse_characterizable_spec(t: Seq<TokenSpec>, i: int) -> Result<
    (CharacterizableCstSpec, int),
    ParseErrSpec,
>
    decreases t.len() - i, 3int,
{
    let apostrophe = peek_kind(t, i) == TokKind::Apostrophe;
    let start = if apostrophe {
        i + 1
    } else {
        i
    };
    if peek_kind(t, start) == TokKind::Ident {
        Ok(
            (
                CharacterizableCstSpec {
                    apostrophe,
                    inner: Box::new(
                        CharInnerCstSpec::Ident(
                            IdentCstSpec { apostrophe: false, name: t[start].text },
                        ),
                    ),
                },
                start + 1,
            ),
        )
    } else if peek_kind(t, start) == TokKind::Integer {
        Ok(
            (
                CharacterizableCstSpec {
                    apostrophe,
                    inner: Box::new(CharInnerCstSpec::Literal(t[start])),
                },
                start + 1,
            ),
        )
    } else if peek_kind(t, start) == TokKind::LBrace {
        match parse_brane_spec(t, start) {
            Ok((b, j)) => Ok(
                (
                    CharacterizableCstSpec { apostrophe, inner: Box::new(CharInnerCstSpec::Brane(Box::new(b))) },
                    j,
                ),
            ),
            Err(e) => Err(e),
        }
    } else {
        Err(syntax_at(t, start, "expected a value"@))
    }
}

/// The kind of the token at `i`, `Eof` past the end.
fn peek(t: &Vec<Token>, i: usize) -> (k: TokKind)
    ensures
        k == peek_kind(tokens_view(t@), i as int),
{
    proof {
        crate::lexer::lemma_tokens_view(t@);
    }
    if i < t.len() {
        t[i].kind
    } else {
        TokKind::Eof
    }
}

/// A syntax error at the token at `i`.
fn syntax_error(t: &Vec<Token>, i: usize, msg: &str) -> (e: ParseError)
    ensures
        e@ == syntax_at(tokens_view(t@), i as int, msg@),
{
    proof {
        crate::lexer::lemma_tokens_view(t@);
    }
    if i < t.len() {
        ParseError::Syntax { line: t[i].line, column: t[i].column, message: msg.to_owned() }
    } else {
        ParseError::Syntax { line: 0, column: 0, message: msg.to_owned() }
    }
}

/// Parse a whole token stream: a brane list, then the end of input.
pub fn parse_program_cst(t: &Vec<Token>) -> (r: Result<ProgramCst, ParseError>)
    ensures
        match r {
            Ok(p) => parse_program_spec(tokens_view(t@)) == Ok::<ProgramCstSpec, ParseErrSpec>(
                p@,
            ),
            Err(e) => parse_program_spec(tokens_view(t@)) == Err::<ProgramCstSpec, ParseErrSpec>(
                e@,
            ),
        },
{
    let _n: usize = t.len();
    proof {
        crate::lexer::lemma_tokens_view(t@);
    }
    let (bs, j) = match parse_branes(t, 0) {
        Ok(x) => x,
        Err(e) => {
            return Err(e);
        },
    };
    if peek(t, j) == TokKind::Eof {
        Ok(ProgramCst { branes: bs })
    } else {
        Err(syntax_error(t, j, "expected end of input"))
    }
}

/// Parse one or more adjacent branes.
#[verifier::loop_isolation(false)]
pub fn parse_branes(t: &Vec<Token>, i: usize) -> (r: Result<(BranesCst, usize), ParseError>)
    requires
        i <= t@.len(),
    ensures
        match r {
            Ok(res) => parse_branes_spec(tokens_view(t@), i as int) == Ok::<
                (BranesCstSpec, int),
                ParseErrSpec,
            >((res.0@, res.1 as int)) && i < res.1 <= t@.len(),
            Err(e) => parse_branes_spec(tokens_view(t@), i as int) == Err::<
                (BranesCstSpec, int),
                ParseErrSpec,
            >(e@),
        },
    decreases t@.len() - i, 8int,
{
    let _n: usize = t.len();
    proof {
        crate::lexer::lemma_tokens_view(t@);
    }
    let ghost tv = tokens_view(t@);
    let (b, j0) = match parse_brane(t, i) {
        Ok(x) => x,
        Err(e) => {
            return Err(e);
        },
    };
    let mut branes: Vec<BraneCst> = Vec::new();
    branes.push(b);
    proof {
        crate::cst::lemma_brane_seq_view(branes@);
        assert(crate::cst::brane_seq_view(branes@) =~= seq![branes@[0]@]);
    }
    let mut j = j0;
    let mut more = peek(t, j) == TokKind::LBrace;
    while more
        invariant
            more == (peek_kind(tv, j as int) == TokKind::LBrace),
            i < j <= t@.len(),
            parse_branes_spec(tv, i as int) == parse_branes_more_spec(
                tv,
                j as int,
                crate::cst::brane_seq_view(branes@),
            ),
        decreases t@.len() - j,
    {
        let ghost acc_before = crate::cst::brane_seq_view(branes@);
        let ghost branes_before = branes@;
        let (b2, j2) = match parse_brane(t, j) {
            Ok(x) => x,
            Err(e) => {
                return Err(e);
            },
        };
        branes.push(b2);
        proof {
            assert(branes@.drop_last() =~= branes_before);
            assert(crate::cst::brane_seq_view(branes@) =~= acc_before.push(branes@.last()@));
        }
        j = j2;
        more = peek(t, j) == TokKind::LBrace;
    }
    Ok((BranesCst { branes }, j))
}

/// Parse one brane: `{ stmt* }`.
#[verifier::loop_isolation(false)]
pub fn parse_brane(t: &Vec<Token>, i: usize) -> (r: Result<(BraneCst, usize), ParseError>)
    requires
        i <= t@.len(),
    ensures
        match r {
            Ok(res) => parse_brane_spec(tokens_view(t@), i as int) == Ok::<
                (BraneCstSpec, int),
                ParseErrSpec,
            >((res.0@, res.1 as int)) && i < res.1 <= t@.len(),
            Err(e) => parse_brane_spec(tokens_view(t@), i as int) == Err::<
                (BraneCstSpec, int),
                ParseErrSpec,
            >(e@),
        },
    decreases t@.len() - i, 2int,
{
    let _n: usize = t.len();
    proof {
        crate::lexer::lemma_tokens_view(t@);
    }
    let ghost tv = tokens_view(t@);
    if peek(t, i) != TokKind::LBrace {
        return Err(syntax_error(t, i, "expected '{'"));
    }
    let mut statements: Vec<StmtCst> = Vec::new();
    let mut j = i + 1;
    proof {
        crate::cst::lemma_stmt_seq_view(statements@);
        assert(crate::cst::stmt_seq_view(statements@) =~= Seq::<StmtCstSpec>::empty());
    }
    let mut k = peek(t, j);
    while k != TokKind::RBrace && k != TokKind::Eof
        invariant
            k == peek_kind(tv, j as int),
            i + 1 <= j <= t@.len(),
            parse_stmts_spec(tv, i + 1, Seq::empty()) == parse_stmts_spec(
                tv,
                j as int,
                crate::cst::stmt_seq_view(statements@),
            ),
        decreases t@.len() - j,
    {
        let ghost acc_before = crate::cst::stmt_seq_view(statements@);
        let ghost statements_before = statements@;
        let (s, j2) = match parse_stmt(t, j) {
            Ok(x) => x,
            Err(e) => {
                return Err(e);
            },
        };
        statements.push(s);
        proof {
            assert(statements@.drop_last() =~= statements_before);
            assert(crate::cst::stmt_seq_view(statements@) =~= acc_before.push(
                statements@.last()@,
            ));
        }
        j = j2;
        k = peek(t, j);
    }
    if k == TokKind::RBrace {
        Ok((BraneCst::Standard(StandardBraneCst { statements }), j + 1))
    } else {
        Err(syntax_error(t, j, "expected '}'"))
    }
}

/// Parse one statement: empty, an assignment, or a bare expression,
/// each closed by a semicolon.
pub fn parse_stmt(t: &Vec<Token>, i: usize) -> (r: Result<(StmtCst, usize), ParseError>)
    requires
        i <= t@.len(),
    ensures
        match r {
            Ok(res) => parse_stmt_spec(tokens_view(t@), i as int) == Ok::<
                (StmtCstSpec, int),
                ParseErrSpec,
            >((res.0@, res.1 as int)) && i < res.1 <= t@.len(),
            Err(e) => parse_stmt_spec(tokens_view(t@), i as int) == Err::<
                (StmtCstSpec, int),
                ParseErrSpec,
            >(e@),
        },
    decreases t@.len() - i, 11int,
{
    let _n: usize = t.len();
    proof {
        crate::lexer::lemma_tokens_view(t@);
    }
    if peek(t, i) == TokKind::Semicolon {
        return Ok((StmtCst::Empty, i + 1));
    }
    let is_assign = (peek(t, i) == TokKind::Ident && peek(t, i + 1) == TokKind::Equals) || (peek(
        t,
        i,
    ) == TokKind::Apostrophe && peek(t, i + 1) == TokKind::Ident && peek(t, i + 2)
        == TokKind::Equals);
    if is_assign {
        parse_assignment(t, i)
    } else {
        let (e, j) = match parse_expr(t, i) {
            Ok(x) => x,
            Err(e) => {
                return Err(e);
            },
        };
        if peek(t, j) == TokKind::Semicolon {
            Ok((StmtCst::Expr(e), j + 1))
        } else {
            Err(syntax_error(t, j, "expected ';'"))
        }
    }
}

/// Parse an assignment: `target = expr ;`.
pub fn parse_assignment(t: &Vec<Token>, i: usize) -> (r: Result<(StmtCst, usize), ParseError>)
    requires
        i <= t@.len(),
    ensures
        match r {
            Ok(res) => parse_assignment_spec(tokens_view(t@), i as int) == Ok::<
                (StmtCstSpec, int),
                ParseErrSpec,
            >((res.0@, res.1 as int)) && i < res.1 <= t@.len(),
            Err(e) => parse_assignment_spec(tokens_view(t@), i as int) == Err::<
                (StmtCstSpec, int),
                ParseErrSpec,
            >(e@),
        },
    decreases t@.len() - i, 10int,
{
    let _n: usize = t.len();
    proof {
        crate::lexer::lemma_tokens_view(t@);
    }
    let (target, j) = match parse_char_ident(t, i) {
        Ok(x) => x,
        Err(e) => {
            return Err(e);
        },
    };
    if peek(t, j) == TokKind::Equals {
        let (e, k) = match parse_expr(t, j + 1) {
            Ok(x) => x,
            Err(e) => {
                return Err(e);
            },
        };
        if peek(t, k) == TokKind::Semicolon {
            Ok((StmtCst::Assignment(AssignmentCst { target, expr: e }), k + 1))
        } else {
            Err(syntax_error(t, k, "expected ';'"))
        }
    } else {
        Err(syntax_error(t, j, "expected '='"))
    }
}

/// Parse an identifier occurrence, possibly apostrophe-delimited.
pub fn parse_char_ident(t: &Vec<Token>, i: usize) -> (r: Result<(IdentCst, usize), ParseError>)
    requires
        i <= t@.len(),
    ensures
        match r {
            Ok(res) => parse_char_ident_spec(tokens_view(t@), i as int) == Ok::<
                (IdentCstSpec, int),
                ParseErrSpec,
            >((res.0@, res.1 as int)) && i < res.1 <= t@.len(),
            Err(e) => parse_char_ident_spec(tokens_view(t@), i as int) == Err::<
                (IdentCstSpec, int),
                ParseErrSpec,
            >(e@),
        },
{
    let _n: usize = t.len();
    proof {
        crate::lexer::lemma_tokens_view(t@);
    }
    proof {
        crate::lexer::lemma_tokens_view(t@);
    }
    if peek(t, i) == TokKind::Apostrophe {
        if peek(t, i + 1) == TokKind::Ident {
            Ok((IdentCst { apostrophe: true, name: t[i + 1].text.clone() }, i + 2))
        } else {
            Err(syntax_error(t, i + 1, "expected an identifier"))
        }
    } else if peek(t, i) == TokKind::Ident {
        Ok((IdentCst { apostrophe: false, name: t[i].text.clone() }, i + 1))
    } else {
        Err(syntax_error(t, i, "expected an identifier"))
    }
}

/// Parse one expression: an `if` form, a brane list, or an additive
/// chain.
pub fn parse_expr(t: &Vec<Token>, i: usize) -> (r: Result<(ExprCst, usize), ParseError>)
    requires
        i <= t@.len(),
    ensures
        match r {
            Ok(res) => parse_expr_spec(tokens_view(t@), i as int) == Ok::<
                (ExprCstSpec, int),
                ParseErrSpec,
            >((res.0@, res.1 as int)) && i < res.1 <= t@.len(),
            Err(e) => parse_expr_spec(tokens_view(t@), i as int) == Err::<
                (ExprCstSpec, int),
                ParseErrSpec,
            >(e@),
        },
    decreases t@.len() - i, 9int,
{
    let _n: usize = t.len();
    proof {
        crate::lexer::lemma_tokens_view(t@);
    }
    if peek(t, i) == TokKind::KwIf {
        Ok((ExprCst::If, i + 1))
    } else if peek(t, i) == TokKind::LBrace {
        let (bs, j) = match parse_branes(t, i) {
            Ok(x) => x,
            Err(e) => {
                return Err(e);
            },
        };
        Ok((ExprCst::Branes(Box::new(bs)), j))
    } else {
        let (a, j) = match parse_add_expr(t, i) {
            Ok(x) => x,
            Err(e) => {
                return Err(e);
            },
        };
        Ok((ExprCst::Add(a), j))
    }
}

/// Parse an additive chain.
#[verifier::loop_isolation(false)]
pub fn parse_add_expr(t: &Vec<Token>, i: usize) -> (r: Result<(AddExprCst, usize), ParseError>)
    requires
        i <= t@.len(),
    ensures
        match r {
            Ok(res) => parse_add_expr_spec(tokens_view(t@), i as int) == Ok::<
                (AddExprCstSpec, int),
                ParseErrSpec,
            >((res.0@, res.1 as int)) && i < res.1 <= t@.len(),
            Err(e) => parse_add_expr_spec(tokens_view(t@), i as int) == Err::<
                (AddExprCstSpec, int),
                ParseErrSpec,
            >(e@),
        },
    decreases t@.len() - i, 8int,
{
    let _n: usize = t.len();
    proof {
        crate::lexer::lemma_tokens_view(t@);
    }
    let ghost tv = tokens_view(t@);
    let (first, j0) = match parse_mul_expr(t, i) {
        Ok(x) => x,
        Err(e) => {
            return Err(e);
        },
    };
    let mut rest: Vec<(Token, MulExprCst)> = Vec::new();
    proof {
        assert(crate::cst::add_rest_view(rest@) =~= Seq::<(TokenSpec, MulExprCstSpec)>::empty());
    }
    let mut j = j0;
    let mut k = peek(t, j);
    while k == TokKind::Plus || k == TokKind::Minus
        invariant
            k == peek_kind(tv, j as int),
            i < j <= t@.len(),
            parse_add_more_spec(tv, j0 as int, Seq::empty()) == parse_add_more_spec(
                tv,
                j as int,
                crate::cst::add_rest_view(rest@),
            ),
        decreases t@.len() - j,
    {
        proof {
            crate::lexer::lemma_tokens_view(t@);
        }
        let ghost acc_before = crate::cst::add_rest_view(rest@);
        let ghost rest_before = rest@;
        let op_tok = t[j].clone();
        let (m, j2) = match parse_mul_expr(t, j + 1) {
            Ok(x) => x,
            Err(e) => {
                return Err(e);
            },
        };
        rest.push((op_tok, m));
        proof {
            assert(rest@.drop_last() =~= rest_before);
            assert(crate::cst::add_rest_view(rest@) =~= acc_before.push(
                (rest@.last().0@, crate::cst::mul_cst_view(rest@.last().1)),
            ));
        }
        j = j2;
        k = peek(t, j);
    }
    Ok((AddExprCst { first, rest }, j))
}

/// Parse a multiplicative chain.
#[verifier::loop_isolation(false)]
pub fn parse_mul_expr(t: &Vec<Token>, i: usize) -> (r: Result<(MulExprCst, usize), ParseError>)
    requires
        i <= t@.len(),
    ensures
        match r {
            Ok(res) => parse_mul_expr_spec(tokens_view(t@), i as int) == Ok::<
                (MulExprCstSpec, int),
                ParseErrSpec,
            >((res.0@, res.1 as int)) && i < res.1 <= t@.len(),
            Err(e) => parse_mul_expr_spec(tokens_view(t@), i as int) == Err::<
                (MulExprCstSpec, int),
                ParseErrSpec,
            >(e@),
        },
    decreases t@.len() - i, 7int,
{
    let _n: usize = t.len();
    proof {
        crate::lexer::lemma_tokens_view(t@);
    }
    let ghost tv = tokens_view(t@);
    let (first, j0) = match parse_unary_expr(t, i) {
        Ok(x) => x,
        Err(e) => {
            return Err(e);
        },
    };
    let mut rest: Vec<(Token, UnaryExprCst)> = Vec::new();
    proof {
        assert(crate::cst::mul_rest_view(rest@) =~= Seq::<(TokenSpec, UnaryExprCstSpec)>::empty());
    }
    let mut j = j0;
    let mut k = peek(t, j);
    while k == TokKind::Star || k == TokKind::Slash
        invariant
            k == peek_kind(tv, j as int),
            i < j <= t@.len(),
            parse_mul_more_spec(tv, j0 as int, Seq::empty()) == parse_mul_more_spec(
                tv,
                j as int,
                crate::cst::mul_rest_view(rest@),
            ),
        decreases t@.len() - j,
    {
        proof {
            crate::lexer::lemma_tokens_view(t@);
        }
        let ghost acc_before = crate::cst::mul_rest_view(rest@);
        let ghost rest_before = rest@;
        let op_tok = t[j].clone();
        let (u, j2) = match parse_unary_expr(t, j + 1) {
            Ok(x) => x,
            Err(e) => {
                return Err(e);
            },
        };
        rest.push((op_tok, u));
        proof {
            assert(rest@.drop_last() =~= rest_before);
            assert(crate::cst::mul_rest_view(rest@) =~= acc_before.push(
                (rest@.last().0@, crate::cst::unary_cst_view(rest@.last().1)),
            ));
        }
        j = j2;
        k = peek(t, j);
    }
    Ok((MulExprCst { first, rest }, j))
}

/// Parse a unary expression: an optional leading `-` or `*`, then a
/// postfix expression.
pub fn parse_unary_expr(t: &Vec<Token>, i: usize) -> (r: Result<(UnaryExprCst, usize), ParseError>)
    requires
        i <= t@.len(),
    ensures
        match r {
            Ok(res) => parse_unary_expr_spec(tokens_view(t@), i as int) == Ok::<
                (UnaryExprCstSpec, int),
                ParseErrSpec,
            >((res.0@, res.1 as int)) && i < res.1 <= t@.len(),
            Err(e) => parse_unary_expr_spec(tokens_view(t@), i as int) == Err::<
                (UnaryExprCstSpec, int),
                ParseErrSpec,
            >(e@),
        },
    decreases t@.len() - i, 6int,
{
    let _n: usize = t.len();
    proof {
        crate::lexer::lemma_tokens_view(t@);
    }
    let k = peek(t, i);
    let prefix = if k == TokKind::Minus {
        Option::Some(PrefixOp::Minus)
    } else if k == TokKind::Star {
        Option::Some(PrefixOp::Star)
    } else {
        Option::None
    };
    let start = if prefix.is_some() {
        i + 1
    } else {
        i
    };
    let (p, j) = match parse_postfix_expr(t, start) {
        Ok(x) => x,
        Err(e) => {
            return Err(e);
        },
    };
    Ok((UnaryExprCst { prefix, postfix: p }, j))
}

/// Parse a postfix expression: a primary and its member accesses.
#[verifier::loop_isolation(false)]
pub fn parse_postfix_expr(t: &Vec<Token>, i: usize) -> (r: Result<
    (PostfixExprCst, usize),
    ParseError,
>)
    requires
        i <= t@.len(),
    ensures
        match r {
            Ok(res) => parse_postfix_expr_spec(tokens_view(t@), i as int) == Ok::<
                (PostfixExprCstSpec, int),
                ParseErrSpec,
            >((res.0@, res.1 as int)) && i < res.1 <= t@.len(),
            Err(e) => parse_postfix_expr_spec(tokens_view(t@), i as int) == Err::<
                (PostfixExprCstSpec, int),
                ParseErrSpec,
            >(e@),
        },
    decreases t@.len() - i, 5int,
{
    let _n: usize = t.len();
    proof {
        crate::lexer::lemma_tokens_view(t@);
    }
    let ghost tv = tokens_view(t@);
    let (p, j0) = match parse_primary(t, i) {
        Ok(x) => x,
        Err(e) => {
            return Err(e);
        },
    };
    let mut members: Vec<IdentCst> = Vec::new();
    proof {
        assert(crate::cst::ident_seq_view(members@) =~= Seq::<IdentCstSpec>::empty());
    }
    let mut j = j0;
    let mut k = peek(t, j);
    while k == TokKind::Dot
        invariant
            k == peek_kind(tv, j as int),
            i < j <= t@.len(),
            parse_postfix_more_spec(tv, j0 as int, Seq::empty()) == parse_postfix_more_spec(
                tv,
                j as int,
                crate::cst::ident_seq_view(members@),
            ),
        decreases t@.len() - j,
    {
        let ghost acc_before = crate::cst::ident_seq_view(members@);
        let ghost members_before = members@;
        let (id, j2) = match parse_char_ident(t, j + 1) {
            Ok(x) => x,
            Err(e) => {
                return Err(e);
            },
        };
        members.push(id);
        proof {
            assert(members@.drop_last() =~= members_before);
            assert(crate::cst::ident_seq_view(members@) =~= acc_before.push(members@.last()@));
        }
        j = j2;
        k = peek(t, j);
    }
    Ok((PostfixExprCst { primary: p, members }, j))
}

/// Parse a primary expression: a parenthesized sub-expression, an
/// unknown literal token, or a characterizable value.
pub fn parse_primary(t: &Vec<Token>, i: usize) -> (r: Result<(PrimaryCst, usize), ParseError>)
    requires
        i <= t@.len(),
    ensures
        match r {
            Ok(res) => parse_primary_spec(tokens_view(t@), i as int) == Ok::<
                (PrimaryCstSpec, int),
                ParseErrSpec,
            >((res.0@, res.1 as int)) && i < res.1 <= t@.len(),
            Err(e) => parse_primary_spec(tokens_view(t@), i as int) == Err::<
                (PrimaryCstSpec, int),
                ParseErrSpec,
            >(e@),
        },
    decreases t@.len() - i, 4int,
{
    let _n: usize = t.len();
    proof {
        crate::lexer::lemma_tokens_view(t@);
    }
    proof {
        crate::lexer::lemma_tokens_view(t@);
    }
    if peek(t, i) == TokKind::LParen {
        let (e, j) = match parse_expr(t, i + 1) {
            Ok(x) => x,
            Err(e) => {
                return Err(e);
            },
        };
        if peek(t, j) == TokKind::RParen {
            Ok((PrimaryCst::Paren(Box::new(e)), j + 1))
        } else {
            Err(syntax_error(t, j, "expected ')'"))
        }
    } else if peek(t, i) == TokKind::Unknown {
        Ok((PrimaryCst::Unknown(t[i].clone()), i + 1))
    } else {
        let (c, j) = match parse_characterizable(t, i) {
            Ok(x) => x,
            Err(e) => {
                return Err(e);
            },
        };
        Ok((PrimaryCst::Characterizable(c), j))
    }
}

/// Parse a characterizable value: an optional apostrophe prefix, then
/// an identifier, an integer literal, or a nested brane.
#[verifier::rlimit(30)]
pub fn parse_characterizable(t: &Vec<Token>, i: usize) -> (r: Result<
    (CharacterizableCst, usize),
    ParseError,
>)
    requires
        i <= t@.len(),
    ensures
        match r {
            Ok(res) => parse_characterizable_spec(tokens_view(t@), i as int) == Ok::<
                (CharacterizableCstSpec, int),
                ParseErrSpec,
            >((res.0@, res.1 as int)) && i < res.1 <= t@.len(),
            Err(e) => parse_characterizable_spec(tokens_view(t@), i as int) == Err::<
                (CharacterizableCstSpec, int),
                ParseErrSpec,
            >(e@),
        },
    decreases t@.len() - i, 3int,
{
    let _n: usize = t.len();
    proof {
        crate::lexer::lemma_tokens_view(t@);
    }
    proof {
        crate::lexer::lemma_tokens_view(t@);
    }
    let k0 = peek(t, i);
    let apostrophe = k0 == TokKind::Apostrophe;
    let start = if apostrophe {
        i + 1
    } else {
        i
    };
    let k = peek(t, start);
    if k == TokKind::Ident {
        Ok(
            (
                CharacterizableCst {
                    apostrophe,
                    inner: CharInnerCst::Ident(
                        IdentCst { apostrophe: false, name: t[start].text.clone() },
                    ),
                },
                start + 1,
            ),
        )
    } else if k == TokKind::Integer {
        Ok(
            (
                CharacterizableCst {
                    apostrophe,
                    inner: CharInnerCst::Literal(LiteralCst { token: t[start].clone() }),
                },
                start + 1,
            ),
        )
    } else if k == TokKind::LBrace {
        let (b, j) = match parse_brane(t, start) {
            Ok(x) => x,
            Err(e) => {
                return Err(e);
            },
        };
        Ok((CharacterizableCst { apostrophe, inner: CharInnerCst::Brane(Box::new(b)) }, j))
    } else {
        Err(syntax_error(t, start, "expected a value"))
    }
}

} // verus!
