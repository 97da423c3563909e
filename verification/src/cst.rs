//! The concrete syntax tree that the grammar produces and the lowering
//! layer consumes.
//!
//! The tree deliberately represents forms the interpreter does not
//! support — apostrophe prefixes, member access, `if` expressions,
//! unknown literals — so that the lowering layer can reject them with
//! precise errors. Each node kind has a ghost counterpart over `Seq`.

use vstd::prelude::*;

use crate::lexer::{Token, TokenSpec};

verus! {

/// A prefix operator position in a unary expression.
#[derive(Debug, Clone, Copy, PartialEq, Eq, Structural)]
pub enum PrefixOp {
    Minus,
    Star,
}

/// Root node: the brane list of a source file.
#[derive(Debug, PartialEq)]
pub struct ProgramCst {
    pub branes: BranesCst,
}

/// A list of branes standing where one expression is expected.
#[derive(Debug, PartialEq)]
pub struct BranesCst {
    pub branes: Vec<BraneCst>,
}

/// A brane production; only the standard form exists today.
#[derive(Debug, PartialEq)]
pub enum BraneCst {
    Standard(StandardBraneCst),
}

/// The standard brane: `{ stmt* }`.
#[derive(Debug, PartialEq)]
pub struct StandardBraneCst {
    pub statements: Vec<StmtCst>,
}

/// One statement production.
#[derive(Debug, PartialEq)]
pub enum StmtCst {
    Assignment(AssignmentCst),
    Expr(ExprCst),
    Empty,
}

/// An assignment: `target = expr ;`.
#[derive(Debug, PartialEq)]
pub struct AssignmentCst {
    pub target: IdentCst,
    pub expr: ExprCst,
}

/// An identifier occurrence, possibly apostrophe-delimited.
#[derive(Debug, PartialEq)]
pub struct IdentCst {
    pub apostrophe: bool,
    pub name: String,
}

/// An expression production.
#[derive(Debug, PartialEq)]
pub enum ExprCst {
    Add(AddExprCst),
    Branes(Box<BranesCst>),
    If,
}

/// A left-associative additive chain; each `rest` pair holds the
/// operator token found between two operands.
#[derive(Debug, PartialEq)]
pub struct AddExprCst {
    pub first: MulExprCst,
    pub rest: Vec<(Token, MulExprCst)>,
}

/// A left-associative multiplicative chain.
#[derive(Debug, PartialEq)]
pub struct MulExprCst {
    pub first: UnaryExprCst,
    pub rest: Vec<(Token, UnaryExprCst)>,
}

/// A unary expression: an optional prefix operator and a postfix
/// expression.
#[derive(Debug, PartialEq)]
pub struct UnaryExprCst {
    pub prefix: Option<PrefixOp>,
    pub postfix: PostfixExprCst,
}

/// A postfix expression: a primary and its member accesses.
#[derive(Debug, PartialEq)]
pub struct PostfixExprCst {
    pub primary: PrimaryCst,
    pub members: Vec<IdentCst>,
}

/// A primary expression.
#[derive(Debug, PartialEq)]
pub enum PrimaryCst {
    Characterizable(CharacterizableCst),
    Paren(Box<ExprCst>),
    Unknown(Token),
}

/// A characterizable value, possibly apostrophe-prefixed.
#[derive(Debug, PartialEq)]
pub struct CharacterizableCst {
    pub apostrophe: bool,
    pub inner: CharInnerCst,
}

/// The atomic value-producing forms.
#[derive(Debug, PartialEq)]
pub enum CharInnerCst {
    Ident(IdentCst),
    Literal(LiteralCst),
    Brane(Box<BraneCst>),
}

/// An integer literal occurrence.
#[derive(Debug, PartialEq)]
pub struct LiteralCst {
    pub token: Token,
}

/// Ghost model of the root node.
#[verifier::ext_equal]
pub struct ProgramCstSpec {
    pub branes: BranesCstSpec,
}

/// Ghost model of a brane list.
#[verifier::ext_equal]
pub struct BranesCstSpec {
    pub branes: Seq<BraneCstSpec>,
}

/// Ghost model of a brane production.
#[verifier::ext_equal]
pub enum BraneCstSpec {
    Standard(Seq<StmtCstSpec>),
}

/// Ghost model of a statement production.
#[verifier::ext_equal]
pub enum StmtCstSpec {
    Assignment(IdentCstSpec, ExprCstSpec),
    Expr(ExprCstSpec),
    Empty,
}

/// Ghost model of an identifier occurrence.
#[verifier::ext_equal]
pub struct IdentCstSpec {
    pub apostrophe: bool,
    pub name: Seq<char>,
}

/// Ghost model of an expression production.
#[verifier::ext_equal]
pub enum ExprCstSpec {
    Add(AddExprCstSpec),
    Branes(Box<BranesCstSpec>),
    If,
}

/// Ghost model of an additive chain.
#[verifier::ext_equal]
pub struct AddExprCstSpec {
    pub first: MulExprCstSpec,
    pub rest: Seq<(TokenSpec, MulExprCstSpec)>,
}

/// Ghost model of a multiplicative chain.
#[verifier::ext_equal]
pub struct MulExprCstSpec {
    pub first: UnaryExprCstSpec,
    pub rest: Seq<(TokenSpec, UnaryExprCstSpec)>,
}

/// Ghost model of a unary expression.
#[verifier::ext_equal]
pub struct UnaryExprCstSpec {
    pub prefix: Option<PrefixOp>,
    pub postfix: Box<PostfixExprCstSpec>,
}

/// Ghost model of a postfix expression.
#[verifier::ext_equal]
pub struct PostfixExprCstSpec {
    pub primary: PrimaryCstSpec,
    pub members: Seq<IdentCstSpec>,
}

/// Ghost model of a primary expression.
#[verifier::ext_equal]
pub enum PrimaryCstSpec {
    Characterizable(CharacterizableCstSpec),
    Paren(Box<ExprCstSpec>),
    Unknown(TokenSpec),
}

/// Ghost model of a characterizable value.
#[verifier::ext_equal]
pub struct CharacterizableCstSpec {
    pub apostrophe: bool,
    pub inner: Box<CharInnerCstSpec>,
}

/// Ghost model of the atomic forms.
#[verifier::ext_equal]
pub enum CharInnerCstSpec {
    Ident(IdentCstSpec),
    Literal(TokenSpec),
    Brane(Box<BraneCstSpec>),
}

/// Ghost model of a brane list node.
pub open spec fn branes_cst_view(b: BranesCst) -> BranesCstSpec
    decreases b,
{
    BranesCstSpec { branes: brane_seq_view(b.branes@) }
}

/// Ghost model of a brane sequence.
pub open spec fn brane_seq_view(bs: Seq<BraneCst>) -> Seq<BraneCstSpec>
    decreases bs,
{
    if bs.len() == 0 {
        Seq::empty()
    } else {
        brane_seq_view(bs.drop_last()).push(brane_cst_view(bs.last()))
    }
}

/// Ghost model of a brane production.
pub open spec fn brane_cst_view(b: BraneCst) -> BraneCstSpec
    decreases b,
{
    match b {
        BraneCst::Standard(sb) => BraneCstSpec::Standard(stmt_seq_view(sb.statements@)),
    }
}

/// Ghost model of a statement sequence.
pub open spec fn stmt_seq_view(ss: Seq<StmtCst>) -> Seq<StmtCstSpec>
    decreases ss,
{
    if ss.len() == 0 {
        Seq::empty()
    } else {
        stmt_seq_view(ss.drop_last()).push(stmt_cst_view(ss.last()))
    }
}

/// Ghost model of a statement production.
pub open spec fn stmt_cst_view(s: StmtCst) -> StmtCstSpec
    decreases s,
{
    match s {
        StmtCst::Assignment(a) => StmtCstSpec::Assignment(
            ident_cst_view(a.target),
            expr_cst_view(a.expr),
        ),
        StmtCst::Expr(e) => StmtCstSpec::Expr(expr_cst_view(e)),
        StmtCst::Empty => StmtCstSpec::Empty,
    }
}

/// Ghost model of an identifier occurrence.
pub open spec fn ident_cst_view(i: IdentCst) -> IdentCstSpec {
    IdentCstSpec { apostrophe: i.apostrophe, name: i.name@ }
}

/// Ghost model of an expression production.
pub open spec fn expr_cst_view(e: ExprCst) -> ExprCstSpec
    decreases e,
{
    match e {
        ExprCst::Add(a) => ExprCstSpec::Add(add_cst_view(a)),
        ExprCst::Branes(b) => ExprCstSpec::Branes(Box::new(branes_cst_view(*b))),
        ExprCst::If => ExprCstSpec::If,
    }
}

/// Ghost model of an additive chain.
pub open spec fn add_cst_view(a: AddExprCst) -> AddExprCstSpec
    decreases a,
{
    AddExprCstSpec { first: mul_cst_view(a.first), rest: add_rest_view(a.rest@) }
}

/// Ghost model of the tail of an additive chain.
pub open spec fn add_rest_view(r: Seq<(Token, MulExprCst)>) -> Seq<(TokenSpec, MulExprCstSpec)>
    decreases r,
{
    if r.len() == 0 {
        Seq::empty()
    } else {
        add_rest_view(r.drop_last()).push((r.last().0@, mul_cst_view(r.last().1)))
    }
}

/// Ghost model of a multiplicative chain.
pub open spec fn mul_cst_view(m: MulExprCst) -> MulExprCstSpec
    decreases m,
{
    MulExprCstSpec { first: unary_cst_view(m.first), rest: mul_rest_view(m.rest@) }
}

/// Ghost model of the tail of a multiplicative chain.
pub open spec fn mul_rest_view(r: Seq<(Token, UnaryExprCst)>) -> Seq<(TokenSpec, UnaryExprCstSpec)>
    decreases r,
{
    if r.len() == 0 {
        Seq::empty()
    } else {
        mul_rest_view(r.drop_last()).push((r.last().0@, unary_cst_view(r.last().1)))
    }
}

/// Ghost model of a unary expression.
pub open spec fn unary_cst_view(u: UnaryExprCst) -> UnaryExprCstSpec
    decreases u,
{
    UnaryExprCstSpec { prefix: u.prefix, postfix: Box::new(postfix_cst_view(u.postfix)) }
}

/// Ghost model of a postfix expression.
pub open spec fn postfix_cst_view(p: PostfixExprCst) -> PostfixExprCstSpec
    decreases p,
{
    PostfixExprCstSpec { primary: primary_cst_view(p.primary), members: ident_seq_view(p.members@) }
}

/// Ghost model of an identifier sequence.
pub open spec fn ident_seq_view(is: Seq<IdentCst>) -> Seq<IdentCstSpec>
    decreases is,
{
    if is.len() == 0 {
        Seq::empty()
    } else {
        ident_seq_view(is.drop_last()).push(ident_cst_view(is.last()))
    }
}

/// Ghost model of a primary expression.
pub open spec fn primary_cst_view(p: PrimaryCst) -> PrimaryCstSpec
    decreases p,
{
    match p {
        PrimaryCst::Characterizable(c) => PrimaryCstSpec::Characterizable(char_cst_view(c)),
        PrimaryCst::Paren(e) => PrimaryCstSpec::Paren(Box::new(expr_cst_view(*e))),
        PrimaryCst::Unknown(t) => PrimaryCstSpec::Unknown(t@),
    }
}

/// Ghost model of a characterizable value.
pub open spec fn char_cst_view(c: CharacterizableCst) -> CharacterizableCstSpec
    decreases c,
{
    CharacterizableCstSpec {
        apostrophe: c.apostrophe,
        inner: Box::new(char_inner_cst_view(c.inner)),
    }
}

/// Ghost model of the atomic forms.
pub open spec fn char_inner_cst_view(c: CharInnerCst) -> CharInnerCstSpec
    decreases c,
{
    match c {
        CharInnerCst::Ident(i) => CharInnerCstSpec::Ident(ident_cst_view(i)),
        CharInnerCst::Literal(l) => CharInnerCstSpec::Literal(l.token@),
        CharInnerCst::Brane(b) => CharInnerCstSpec::Brane(Box::new(brane_cst_view(*b))),
    }
}

impl View for ProgramCst {
    type V = ProgramCstSpec;

    open spec fn view(&self) -> ProgramCstSpec {
        ProgramCstSpec { branes: branes_cst_view(self.branes) }
    }
}

impl View for BranesCst {
    type V = BranesCstSpec;

    open spec fn view(&self) -> BranesCstSpec {
        branes_cst_view(*self)
    }
}

impl View for BraneCst {
    type V = BraneCstSpec;

    open spec fn view(&self) -> BraneCstSpec {
        brane_cst_view(*self)
    }
}

impl View for StandardBraneCst {
    type V = Seq<StmtCstSpec>;

    open spec fn view(&self) -> Seq<StmtCstSpec> {
        stmt_seq_view(self.statements@)
    }
}

impl View for StmtCst {
    type V = StmtCstSpec;

    open spec fn view(&self) -> StmtCstSpec {
        stmt_cst_view(*self)
    }
}

impl View for AssignmentCst {
    type V = StmtCstSpec;

    open spec fn view(&self) -> StmtCstSpec {
        StmtCstSpec::Assignment(ident_cst_view(self.target), expr_cst_view(self.expr))
    }
}

impl View for IdentCst {
    type V = IdentCstSpec;

    open spec fn view(&self) -> IdentCstSpec {
        ident_cst_view(*self)
    }
}

impl View for ExprCst {
    type V = ExprCstSpec;

    open spec fn view(&self) -> ExprCstSpec {
        expr_cst_view(*self)
    }
}

impl View for AddExprCst {
    type V = AddExprCstSpec;

    open spec fn view(&self) -> AddExprCstSpec {
        add_cst_view(*self)
    }
}

impl View for MulExprCst {
    type V = MulExprCstSpec;

    open spec fn view(&self) -> MulExprCstSpec {
        mul_cst_view(*self)
    }
}

impl View for UnaryExprCst {
    type V = UnaryExprCstSpec;

    open spec fn view(&self) -> UnaryExprCstSpec {
        unary_cst_view(*self)
    }
}

impl View for PostfixExprCst {
    type V = PostfixExprCstSpec;

    open spec fn view(&self) -> PostfixExprCstSpec {
        postfix_cst_view(*self)
    }
}

impl View for PrimaryCst {
    type V = PrimaryCstSpec;

    open spec fn view(&self) -> PrimaryCstSpec {
        primary_cst_view(*self)
    }
}

impl View for CharacterizableCst {
    type V = CharacterizableCstSpec;

    open spec fn view(&self) -> CharacterizableCstSpec {
        char_cst_view(*self)
    }
}

impl View for LiteralCst {
    type V = TokenSpec;

    open spec fn view(&self) -> TokenSpec {
        self.token@
    }
}

/// The model of a brane sequence is elementwise.
pub broadcast proof fn lemma_brane_seq_view(bs: Seq<BraneCst>)
    ensures
        (#[trigger] brane_seq_view(bs)).len() == bs.len(),
        forall|i: int| 0 <= i < bs.len() ==> brane_seq_view(bs)[i] == brane_cst_view(bs[i]),
    decreases bs.len(),
{
    if bs.len() > 0 {
        lemma_brane_seq_view(bs.drop_last());
    }
}

/// The model of a statement sequence is elementwise.
pub broadcast proof fn lemma_stmt_seq_view(ss: Seq<StmtCst>)
    ensures
        (#[trigger] stmt_seq_view(ss)).len() == ss.len(),
        forall|i: int| 0 <= i < ss.len() ==> stmt_seq_view(ss)[i] == stmt_cst_view(ss[i]),
    decreases ss.len(),
{
    if ss.len() > 0 {
        lemma_stmt_seq_view(ss.drop_last());
    }
}

/// The model of an additive tail is elementwise.
pub broadcast proof fn lemma_add_rest_view(r: Seq<(Token, MulExprCst)>)
    ensures
        (#[trigger] add_rest_view(r)).len() == r.len(),
        forall|i: int|
            0 <= i < r.len() ==> add_rest_view(r)[i] == (r[i].0@, mul_cst_view(r[i].1)),
    decreases r.len(),
{
    if r.len() > 0 {
        lemma_add_rest_view(r.drop_last());
    }
}

/// The model of a multiplicative tail is elementwise.
pub broadcast proof fn lemma_mul_rest_view(r: Seq<(Token, UnaryExprCst)>)
    ensures
        (#[trigger] mul_rest_view(r)).len() == r.len(),
        forall|i: int|
            0 <= i < r.len() ==> mul_rest_view(r)[i] == (r[i].0@, unary_cst_view(r[i].1)),
    decreases r.len(),
{
    if r.len() > 0 {
        lemma_mul_rest_view(r.drop_last());
    }
}

/// The model of an identifier sequence is elementwise.
pub broadcast proof fn lemma_ident_seq_view(is: Seq<IdentCst>)
    ensures
        (#[trigger] ident_seq_view(is)).len() == is.len(),
        forall|i: int| 0 <= i < is.len() ==> ident_seq_view(is)[i] == ident_cst_view(is[i]),
    decreases is.len(),
{
    if is.len() > 0 {
        lemma_ident_seq_view(is.drop_last());
    }
}

} // verus!
