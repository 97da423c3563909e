//! Runtime values and interpreter errors.
//!
//! The stepwise interpreter itself ("Ubc") is added on top of these
//! types together with the scope stack.

use vstd::prelude::*;

use crate::ast::{stmts_view, BinaryOp, Brane, Program, Statement, UnaryOp};
use crate::ast::{Expr, Identifier, StmtSpec};
use crate::ast::ExprSpec;
use crate::ast::lemma_stmts_view;
use crate::parser::{ParseError, ParseErrSpec};
use crate::scope::{lemma_stack_view, stack_view, Scope};
use crate::semantics::{assign_spec, eval_expr_spec, eval_stmt_spec, eval_stmts_spec};
use crate::semantics::{lookup_spec, ScopeSpec, StackSpec};

verus! {

/// A runtime value: an integer, the aggregate value of a brane, or the
/// value of an empty block.
#[derive(Debug, PartialEq)]
pub enum Value {
    Int(i64),
    Brane(Vec<Value>),
    Nothing,
}

/// Ghost model of a runtime value.
#[verifier::ext_equal]
pub enum ValueSpec {
    Int(i64),
    Brane(Seq<ValueSpec>),
    Nothing,
}

/// Ghost model of a value node.
pub open spec fn value_view(v: Value) -> ValueSpec
    decreases v,
{
    match v {
        Value::Int(n) => ValueSpec::Int(n),
        Value::Brane(vs) => ValueSpec::Brane(values_view(vs@)),
        Value::Nothing => ValueSpec::Nothing,
    }
}

/// Ghost model of a value sequence.
pub open spec fn values_view(vs: Seq<Value>) -> Seq<ValueSpec>
    decreases vs,
{
    if vs.len() == 0 {
        Seq::empty()
    } else {
        values_view(vs.drop_last()).push(value_view(vs.last()))
    }
}

/// The model of a value sequence is elementwise.
pub broadcast proof fn lemma_values_view(vs: Seq<Value>)
    ensures
        (#[trigger] values_view(vs)).len() == vs.len(),
        forall|i: int| 0 <= i < vs.len() ==> values_view(vs)[i] == value_view(vs[i]),
    decreases vs.len(),
{
    if vs.len() > 0 {
        lemma_values_view(vs.drop_last());
    }
}

impl View for Value {
    type V = ValueSpec;

    open spec fn view(&self) -> ValueSpec {
        value_view(*self)
    }
}

impl Clone for Value {
    /// A clone is structurally equal to the original.
    #[verifier::loop_isolation(false)]
    fn clone(&self) -> (res: Self)
        ensures
            res@ == self@,
        decreases *self,
    {
        match self {
            Value::Int(n) => Value::Int(*n),
            Value::Nothing => Value::Nothing,
            Value::Brane(vs) => {
                let mut out: Vec<Value> = Vec::new();
                let mut i: usize = 0;
                while i < vs.len()
                    invariant
                        i <= vs.len(),
                        out@.len() == i,
                        forall|j: int| 0 <= j < i ==> value_view(out@[j]) == value_view(vs@[j]),
                    decreases vs.len() - i,
                {
                    out.push(vs[i].clone());
                    i += 1;
                }
                proof {
                    lemma_values_view(out@);
                    lemma_values_view(vs@);
                    assert(values_view(out@) =~= values_view(vs@));
                }
                Value::Brane(out)
            },
        }
    }
}

/// An error produced while interpreting a program, or while parsing the
/// source it was constructed from.
#[derive(Debug, PartialEq)]
pub enum UbcError {
    Parse(ParseError),
    UnknownIdentifier(String),
    DivisionByZero,
    UnsupportedOperation(String),
}

/// Ghost model of an interpreter error.
#[verifier::ext_equal]
pub enum UbcErrSpec {
    Parse(ParseErrSpec),
    UnknownIdentifier(Seq<char>),
    DivisionByZero,
    UnsupportedOperation(Seq<char>),
}

impl View for UbcError {
    type V = UbcErrSpec;

    open spec fn view(&self) -> UbcErrSpec {
        match self {
            UbcError::Parse(e) => UbcErrSpec::Parse(e@),
            UbcError::UnknownIdentifier(n) => UbcErrSpec::UnknownIdentifier(n@),
            UbcError::DivisionByZero => UbcErrSpec::DivisionByZero,
            UbcError::UnsupportedOperation(m) => UbcErrSpec::UnsupportedOperation(m@),
        }
    }
}

impl vstd::std_specs::convert::FromSpecImpl<ParseError> for UbcError {
    open spec fn obeys_from_spec() -> bool {
        true
    }

    open spec fn from_spec(err: ParseError) -> UbcError {
        UbcError::Parse(err)
    }
}

impl From<ParseError> for UbcError {
    /// A lowering error is propagated unchanged.
    fn from(err: ParseError) -> (res: UbcError)
        ensures
            res@ == UbcErrSpec::Parse(err@),
    {
        UbcError::Parse(err)
    }
}

/// Ghost model of the interpreter state.
#[verifier::ext_equal]
pub struct UbcSpec {
    /// The top-level statement sequence.
    pub stmts: Seq<StmtSpec>,
    /// Index of the next statement to execute.
    pub index: int,
    /// The scope stack, innermost last.
    pub scopes: StackSpec,
    /// The most recently produced value.
    pub result: Option<ValueSpec>,
    /// Whether the statement sequence is exhausted.
    pub complete: bool,
}

/// The stepwise interpreter: owns a statement sequence, a scope stack
/// and the latest result, and executes one statement per `step` call.
#[derive(Debug)]
pub struct Ubc {
    statements: Vec<Statement>,
    index: usize,
    scopes: Vec<Scope>,
    result: Option<Value>,
    complete: bool,
}

impl View for Ubc {
    type V = UbcSpec;

    closed spec fn view(&self) -> UbcSpec {
        UbcSpec {
            stmts: stmts_view(self.statements@),
            index: self.index as int,
            scopes: stack_view(self.scopes@),
            result: match self.result {
                Option::Some(v) => Option::Some(value_view(v)),
                Option::None => Option::None,
            },
            complete: self.complete,
        }
    }
}

impl Ubc {
    /// Well-formedness: the scope stack is never empty, the statement
    /// index never passes the end, and a complete interpreter stands at
    /// the end.
    pub open spec fn wf(&self) -> bool {
        &&& self@.scopes.len() >= 1
        &&& 0 <= self@.index <= self@.stmts.len()
        &&& (self@.complete ==> self@.index == self@.stmts.len())
    }

    /// Parse source text and wrap the lowered program; a parse error is
    /// propagated unchanged.
    pub fn from_source(source: &str) -> (r: Result<Ubc, UbcError>)
        requires
            source@.len() < usize::MAX,
        ensures
            match r {
                Ok(u) => {
                    &&& crate::parser::program_of_source(source@) matches Ok(ss)
                    &&& u.wf()
                    &&& u@.stmts == ss
                    &&& u@.index == 0
                    &&& u@.scopes == seq![ScopeSpec::empty()]
                    &&& u@.result is None
                    &&& !u@.complete
                },
                Err(e) => {
                    &&& crate::parser::program_of_source(source@) matches Err(pe)
                    &&& e@ == UbcErrSpec::Parse(pe)
                },
            },
    {
        match crate::parser::parse_program(source) {
            Ok(program) => Ok(Ubc::new(program)),
            Err(e) => Err(UbcError::Parse(e)),
        }
    }

    /// Wrap an already-lowered program: its top-level statements, one
    /// empty scope, no result yet.
    pub fn new(program: Program) -> (u: Ubc)
        ensures
            u.wf(),
            u@.stmts == program@,
            u@.index == 0,
            u@.scopes =~= seq![ScopeSpec::empty()],
            u@.result is None,
            !u@.complete,
    {
        let mut scopes: Vec<Scope> = Vec::new();
        scopes.push(Scope::new());
        let u = Ubc {
            statements: program.brane.statements,
            index: 0,
            scopes,
            result: Option::None,
            complete: false,
        };
        proof {
            assert(u.scopes@.drop_last() =~= Seq::<Scope>::empty());
            assert(stack_view(u.scopes@) == stack_view(u.scopes@.drop_last()).push(
                u.scopes@.last()@,
            ));
            assert(u@.scopes =~= seq![ScopeSpec::empty()]);
        }
        u
    }

    /// Whether the statement sequence is exhausted.
    pub fn is_complete(&self) -> (b: bool)
        ensures
            b == self@.complete,
    {
        self.complete
    }

    /// The most recently produced value, if any statement has run.
    pub fn result(&self) -> (r: Option<&Value>)
        ensures
            r is Some <==> self@.result is Some,
            r is Some ==> r->0@ == self@.result->0,
    {
        self.result.as_ref()
    }

    /// Lexical lookup through the whole stack, innermost scope first;
    /// an unbound name is an `UnknownIdentifier` error.
    #[verifier::loop_isolation(false)]
    fn lookup(scopes: &Vec<Scope>, name: &Identifier) -> (r: Result<Value, UbcError>)
        ensures
            match r {
                Ok(v) => lookup_spec(stack_view(scopes@), name@) == Option::Some(v@),
                Err(e) => lookup_spec(stack_view(scopes@), name@) is None && e@
                    == UbcErrSpec::UnknownIdentifier(name@),
            },
    {
        let ghost stack = stack_view(scopes@);
        let mut i: usize = scopes.len();
        proof {
            lemma_stack_view(scopes@);
            assert(stack.take(i as int) =~= stack);
        }
        while i > 0
            invariant
                i <= scopes@.len(),
                lookup_spec(stack, name@) == lookup_spec(stack.take(i as int), name@),
            decreases i,
        {
            i = i - 1;
            proof {
                assert(stack.take(i + 1).drop_last() =~= stack.take(i as int));
                assert(stack.take(i + 1).last() == scopes@[i as int]@);
            }
            match scopes[i].get(name) {
                Option::Some(v) => {
                    return Ok(v.clone());
                },
                Option::None => {},
            }
        }
        proof {
            assert(stack.take(0) =~= Seq::<ScopeSpec>::empty());
        }
        Err(UbcError::UnknownIdentifier(name.clone()))
    }

    /// Evaluate one expression in the current stack. The visible stack
    /// is unchanged whether evaluation succeeds or fails: a nested
    /// brane pops its scope even on the error path.
    #[verifier::loop_isolation(false)]
    fn evaluate_expr(expr: &Expr, scopes: &mut Vec<Scope>) -> (r: Result<Value, UbcError>)
        ensures
            stack_view(final(scopes)@) == stack_view(old(scopes)@),
            final(scopes)@.len() == old(scopes)@.len(),
            match r {
                Ok(v) => eval_expr_spec(stack_view(old(scopes)@), expr@) == Ok::<
                    ValueSpec,
                    UbcErrSpec,
                >(v@),
                Err(e) => eval_expr_spec(stack_view(old(scopes)@), expr@) == Err::<
                    ValueSpec,
                    UbcErrSpec,
                >(e@),
            },
        decreases *expr,
    {
        match expr {
            Expr::Int(v) => Ok(Value::Int(*v)),
            Expr::Identifier(name) => Self::lookup(scopes, name),
            Expr::Unary { op, expr: inner } => {
                let v = match Self::evaluate_expr(&**inner, scopes) {
                    Ok(v) => v,
                    Err(e) => {
                        return Err(e);
                    },
                };
                match (*op, v) {
                    (UnaryOp::Negate, Value::Int(a)) => Ok(
                        Value::Int(if a == i64::MIN { i64::MIN } else { -a }),
                    ),
                    _ => Err(UbcError::UnsupportedOperation("unary op".to_owned())),
                }
            },
            Expr::Binary { op, left, right } => {
                let l = match Self::evaluate_expr(&**left, scopes) {
                    Ok(v) => v,
                    Err(e) => {
                        return Err(e);
                    },
                };
                let r = match Self::evaluate_expr(&**right, scopes) {
                    Ok(v) => v,
                    Err(e) => {
                        return Err(e);
                    },
                };
                match (l, r) {
                    (Value::Int(a), Value::Int(b)) => match op {
                        BinaryOp::Add => Ok(Value::Int(a.wrapping_add(b))),
                        BinaryOp::Subtract => Ok(Value::Int(a.wrapping_sub(b))),
                        BinaryOp::Multiply => Ok(Value::Int(a.wrapping_mul(b))),
                        BinaryOp::Divide => if b == 0 {
                            Err(UbcError::DivisionByZero)
                        } else {
                            Ok(
                                Value::Int(
                                    match a.checked_div(b) {
                                        Option::Some(q) => q,
                                        Option::None => i64::MIN,
                                    },
                                ),
                            )
                        },
                    },
                    _ => Err(UbcError::UnsupportedOperation("binary op".to_owned())),
                }
            },
            Expr::Brane(b) => Self::evaluate_brane(&**b, scopes),
        }
    }

    /// Evaluate a nested brane: push one fresh scope, run the
    /// statements in order collecting their values, and pop the scope
    /// again — also when a statement fails.
    #[verifier::loop_isolation(false)]
    #[verifier::rlimit(60)]
    fn evaluate_brane(brane: &Brane, scopes: &mut Vec<Scope>) -> (r: Result<Value, UbcError>)
        ensures
            stack_view(final(scopes)@) == stack_view(old(scopes)@),
            final(scopes)@.len() == old(scopes)@.len(),
            match r {
                Ok(v) => eval_expr_spec(stack_view(old(scopes)@), ExprSpec::Brane(brane@)) == Ok::<
                    ValueSpec,
                    UbcErrSpec,
                >(v@),
                Err(e) => eval_expr_spec(stack_view(old(scopes)@), ExprSpec::Brane(brane@))
                    == Err::<ValueSpec, UbcErrSpec>(e@),
            },
        decreases *brane,
    {
        let ghost stack_before = stack_view(scopes@);
        proof {
            lemma_stack_view(scopes@);
        }
        scopes.push(Scope::new());
        let ghost stack0 = stack_view(scopes@);
        proof {
            lemma_stack_view(scopes@);
            assert(scopes@.drop_last() =~= old(scopes)@);
            assert(stack0 =~= stack_before.push(Map::empty()));
        }
        let ghost ss = brane@;
        let mut values: Vec<Value> = Vec::new();
        proof {
            assert(ss.skip(0) =~= ss);
            match eval_stmts_spec(stack0, ss) {
                Ok(r) => {
                    assert(values_view(values@) + r.1 =~= r.1);
                },
                Err(_) => {},
            }
        }
        let mut i: usize = 0;
        while i < brane.statements.len()
            invariant
                i <= brane.statements@.len(),
                scopes@.len() == old(scopes)@.len() + 1,
                stack_view(scopes@).len() == stack0.len(),
                forall|j: int| 0 <= j < stack0.len() - 1 ==> stack_view(scopes@)[j] == stack0[j],
                eval_stmts_spec(stack0, ss) == (match eval_stmts_spec(
                    stack_view(scopes@),
                    ss.skip(i as int),
                ) {
                    Ok(r) => Ok((r.0, values_view(values@) + r.1)),
                    Err(e) => Err::<(StackSpec, Seq<ValueSpec>), UbcErrSpec>(e),
                }),
            decreases brane.statements@.len() - i,
        {
            proof {
                lemma_stmts_view(brane.statements@);
                assert(ss.skip(i as int)[0] == ss[i as int]);
                assert(ss.skip(i as int).subrange(1, ss.skip(i as int).len() as int) =~= ss.skip(
                    i + 1,
                ));
            }
            let ghost vals_before = values_view(values@);
            let ghost vals_seq_before = values@;
            let ghost stack_prev = stack_view(scopes@);
            let v = match Self::execute_statement(&brane.statements[i], scopes) {
                Ok(v) => v,
                Err(e) => {
                    let ghost before_pop = scopes@;
                    let _ = scopes.pop();
                    proof {
                        lemma_stack_view(before_pop);
                        lemma_stack_view(scopes@);
                        assert(scopes@ =~= before_pop.drop_last());
                        assert(stack_view(before_pop) == stack_prev);
                        assert(forall|j: int|
                            0 <= j < stack_before.len() ==> stack_prev[j] == stack0[j]);
                        assert(forall|j: int|
                            0 <= j < stack_before.len() ==> stack0[j] == stack_before[j]);
                        assert(forall|j: int|
                            0 <= j < stack_before.len() ==> stack_view(scopes@)[j] == stack_view(
                                before_pop,
                            )[j]);
                        assert(stack_view(scopes@) =~= stack_before);
                    }
                    return Err(e);
                },
            };
            values.push(v);
            i = i + 1;
            proof {
                lemma_values_view(values@);
                assert(values@.drop_last() =~= vals_seq_before);
                assert(values_view(values@.drop_last()) == vals_before);
                match eval_stmt_spec(stack_prev, ss[i - 1]) {
                    Ok(r1) => {
                        assert(stack_view(scopes@) == r1.0);
                    },
                    Err(_) => {},
                }
                match eval_stmts_spec(stack_view(scopes@), ss.skip(i as int)) {
                    Ok(r) => {
                        assert(values_view(values@) + r.1 =~= vals_before + (seq![
                            values_view(values@).last(),
                        ] + r.1));
                    },
                    Err(_) => {},
                }
            }
        }
        proof {
            lemma_values_view(values@);
            lemma_stmts_view(brane.statements@);
            assert(ss.skip(i as int) =~= Seq::<StmtSpec>::empty());
            assert(eval_stmts_spec(stack_view(scopes@), ss.skip(i as int)) == Ok::<
                (StackSpec, Seq<ValueSpec>),
                UbcErrSpec,
            >((stack_view(scopes@), Seq::empty())));
            assert(values_view(values@) + Seq::<ValueSpec>::empty() =~= values_view(values@));
            assert(eval_stmts_spec(stack0, ss) == Ok::<(StackSpec, Seq<ValueSpec>), UbcErrSpec>(
                (stack_view(scopes@), values_view(values@)),
            ));
        }
        let ghost before_pop = scopes@;
        let _ = scopes.pop();
        proof {
            lemma_stack_view(before_pop);
            lemma_stack_view(scopes@);
            assert(scopes@ =~= before_pop.drop_last());
            assert(forall|j: int|
                0 <= j < stack_before.len() ==> stack_view(before_pop)[j] == stack0[j]);
            assert(forall|j: int| 0 <= j < stack_before.len() ==> stack0[j] == stack_before[j]);
            assert(forall|j: int|
                0 <= j < stack_before.len() ==> stack_view(scopes@)[j] == stack_view(
                    before_pop,
                )[j]);
            assert(stack_view(scopes@) =~= stack_before);
        }
        proof {
            assert(stack_before == stack_view(old(scopes)@));
            assert(stack0 == stack_before.push(Map::empty()));
            match eval_stmts_spec(stack0, ss) {
                Ok(r) => {
                    assert(r.1 == values_view(values@));
                    assert(eval_expr_spec(stack_before, ExprSpec::Brane(ss)) == Ok::<
                        ValueSpec,
                        UbcErrSpec,
                    >(
                        if r.1.len() == 0 {
                            ValueSpec::Nothing
                        } else {
                            ValueSpec::Brane(r.1)
                        },
                    ));
                },
                Err(_) => {
                    assert(false);
                },
            }
        }
        if values.len() == 0 {
            Ok(Value::Nothing)
        } else {
            Ok(Value::Brane(values))
        }
    }

    /// Execute one statement: evaluate its expression; an assignment
    /// additionally binds the target in the innermost scope. Either way
    /// the expression's value is the statement's value.
    fn execute_statement(stmt: &Statement, scopes: &mut Vec<Scope>) -> (r: Result<Value, UbcError>)
        requires
            old(scopes)@.len() >= 1,
        ensures
            final(scopes)@.len() == old(scopes)@.len(),
            match r {
                Ok(v) => eval_stmt_spec(stack_view(old(scopes)@), stmt@) == Ok::<
                    (StackSpec, ValueSpec),
                    UbcErrSpec,
                >((stack_view(final(scopes)@), v@)),
                Err(e) => eval_stmt_spec(stack_view(old(scopes)@), stmt@) == Err::<
                    (StackSpec, ValueSpec),
                    UbcErrSpec,
                >(e@) && stack_view(final(scopes)@) == stack_view(old(scopes)@),
            },
        decreases *stmt,
    {
        match stmt {
            Statement::Expr(e) => Self::evaluate_expr(e, scopes),
            Statement::Assign { target, expr } => {
                let v = match Self::evaluate_expr(expr, scopes) {
                    Ok(v) => v,
                    Err(e) => {
                        return Err(e);
                    },
                };
                let result_value = v.clone();
                let ghost stack_prev = stack_view(scopes@);
                let ghost prev = scopes@;
                let mut top = scopes.pop().unwrap();
                top.insert(target.clone(), v);
                scopes.push(top);
                proof {
                    lemma_stack_view(prev);
                    lemma_stack_view(scopes@);
                    assert(scopes@.drop_last() =~= prev.drop_last());
                    assert(stack_view(scopes@) =~= assign_spec(
                        stack_prev,
                        target@,
                        result_value@,
                    ));
                }
                Ok(result_value)
            },
        }
    }
    /// Execute the next statement, if any: `Ok(true)` when one ran,
    /// `Ok(false)` once the sequence is exhausted, idempotently. On an
    /// error the state is left exactly as it was, the index included.
    pub fn step(&mut self) -> (r: Result<bool, UbcError>)
        requires
            old(self).wf(),
        ensures
            final(self).wf(),
            final(self)@.stmts == old(self)@.stmts,
            old(self)@.complete ==> r == Ok::<bool, UbcError>(false) && final(self)@ == old(
                self,
            )@,
            !old(self)@.complete && old(self)@.index == old(self)@.stmts.len() ==> r == Ok::<
                bool,
                UbcError,
            >(false) && final(self)@ == (UbcSpec { complete: true, ..old(self)@ }),
            final(self)@ == step_result(old(self)@).0,
            (match r {
                Ok(b) => Ok::<bool, UbcErrSpec>(b),
                Err(e) => Err::<bool, UbcErrSpec>(e@),
            }) == step_result(old(self)@).1,
            !old(self)@.complete && old(self)@.index < old(self)@.stmts.len() ==> match eval_stmt_spec(
                old(self)@.scopes,
                old(self)@.stmts[old(self)@.index],
            ) {
                Ok(sv) => {
                    &&& r == Ok::<bool, UbcError>(true)
                    &&& final(self)@.scopes == sv.0
                    &&& final(self)@.result == Option::Some(sv.1)
                    &&& final(self)@.index == old(self)@.index + 1
                    &&& final(self)@.complete == (old(self)@.index + 1 == old(self)@.stmts.len())
                },
                Err(e) => r matches Err(err) && err@ == e && final(self)@ == old(self)@,
            },
    {
        if self.complete {
            proof {
                assert(self@ =~= old(self)@);
            }
            return Ok(false);
        }
        if self.index >= self.statements.len() {
            self.complete = true;
            proof {
                lemma_stmts_view(self.statements@);
                assert(self@ =~= (UbcSpec { complete: true, ..old(self)@ }));
            }
            return Ok(false);
        }
        proof {
            lemma_stmts_view(self.statements@);
            lemma_stack_view(self.scopes@);
        }
        let v = match Self::execute_statement(&self.statements[self.index], &mut self.scopes) {
            Ok(v) => v,
            Err(e) => {
                proof {
                    assert(self@ =~= old(self)@);
                }
                return Err(e);
            },
        };
        self.index = self.index + 1;
        self.result = Option::Some(v);
        if self.index >= self.statements.len() {
            self.complete = true;
        }
        proof {
            lemma_stack_view(self.scopes@);
        }
        Ok(true)
    }

    /// Step until exhaustion or error. On success the whole remaining
    /// statement sequence has run and the last produced value, if any,
    /// is the result.
    #[verifier::loop_isolation(false)]
    pub fn run_to_completion(&mut self) -> (r: Result<Option<&Value>, UbcError>)
        requires
            old(self).wf(),
        ensures
            final(self).wf(),
            final(self)@.stmts == old(self)@.stmts,
            match eval_stmts_spec(old(self)@.scopes, old(self)@.stmts.skip(old(self)@.index)) {
                Ok(sv) => {
                    &&& r is Ok
                    &&& final(self)@.scopes == sv.0
                    &&& final(self)@.complete
                    &&& final(self)@.index == final(self)@.stmts.len()
                    &&& final(self)@.result == (if sv.1.len() > 0 {
                        Option::Some(sv.1.last())
                    } else {
                        old(self)@.result
                    })
                    &&& (r->Ok_0 is Some <==> final(self)@.result is Some)
                    &&& (r->Ok_0 is Some ==> r->Ok_0->0@ == final(self)@.result->0)
                },
                Err(e) => r matches Err(err) && err@ == e,
            },
    {
        let ghost mut produced: Seq<ValueSpec> = Seq::empty();
        let ghost whole = eval_stmts_spec(old(self)@.scopes, old(self)@.stmts.skip(old(self)@.index));
        let mut more: bool = true;
        proof {
            match eval_stmts_spec(self@.scopes, self@.stmts.skip(self@.index)) {
                Ok(sv) => {
                    assert(produced + sv.1 =~= sv.1);
                },
                Err(_) => {},
            }
        }
        while more
            invariant
                self.wf(),
                self@.stmts == old(self)@.stmts,
                whole == (match eval_stmts_spec(self@.scopes, self@.stmts.skip(self@.index)) {
                    Ok(sv) => Ok((sv.0, produced + sv.1)),
                    Err(e) => Err::<(StackSpec, Seq<ValueSpec>), UbcErrSpec>(e),
                }),
                self@.result == (if produced.len() > 0 {
                    Option::Some(produced.last())
                } else {
                    old(self)@.result
                }),
                !more ==> self@.complete,
            decreases 2 * (self@.stmts.len() - self@.index) + (if self@.complete {
                0int
            } else {
                1int
            }) + (if more {
                1int
            } else {
                0int
            }),
        {
            let ghost prev = self@;
            let ghost prev_produced = produced;
            proof {
                assert(prev.stmts.skip(prev.index).len() == prev.stmts.len() - prev.index);
                if prev.index < prev.stmts.len() {
                    assert(prev.stmts.skip(prev.index)[0] == prev.stmts[prev.index]);
                    assert(prev.stmts.skip(prev.index).subrange(
                        1,
                        prev.stmts.skip(prev.index).len() as int,
                    ) =~= prev.stmts.skip(prev.index + 1));
                }
            }
            let stepped = match self.step() {
                Ok(b) => b,
                Err(e) => {
                    return Err(e);
                },
            };
            if !stepped {
                more = false;
            } else {
                proof {
                    match eval_stmt_spec(prev.scopes, prev.stmts[prev.index]) {
                        Ok(sv) => {
                            produced = produced.push(sv.1);
                            match eval_stmts_spec(self@.scopes, self@.stmts.skip(self@.index)) {
                                Ok(sv2) => {
                                    assert(prev_produced + (seq![sv.1] + sv2.1) =~= produced
                                        + sv2.1);
                                },
                                Err(_) => {},
                            }
                        },
                        Err(_) => {
                            assert(false);
                        },
                    }
                }
            }
        }
        proof {
            assert(self@.stmts.skip(self@.index) =~= Seq::<StmtSpec>::empty());
            match eval_stmts_spec(self@.scopes, self@.stmts.skip(self@.index)) {
                Ok(sv) => {
                    assert(produced + sv.1 =~= produced);
                },
                Err(_) => {},
            }
        }
        Ok(self.result())
    }
}

/// The transition one `step` call makes on the interpreter state:
/// the new state and the call's outcome.
pub open spec fn step_result(u: UbcSpec) -> (UbcSpec, Result<bool, UbcErrSpec>) {
    if u.complete {
        (u, Ok(false))
    } else if u.index >= u.stmts.len() {
        (UbcSpec { complete: true, ..u }, Ok(false))
    } else {
        match eval_stmt_spec(u.scopes, u.stmts[u.index]) {
            Ok(sv) => (
                UbcSpec {
                    scopes: sv.0,
                    result: Option::Some(sv.1),
                    index: u.index + 1,
                    complete: u.index + 1 == u.stmts.len(),
                    ..u
                },
                Ok(true),
            ),
            Err(e) => (u, Err(e)),
        }
    }
}

} // verus!
