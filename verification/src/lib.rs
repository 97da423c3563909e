//! Semantic core of a small experimental scripting language.
//!
//! The crate turns source text into a typed abstract syntax tree and
//! evaluates that tree with a resumable, stepwise interpreter ("Ubc")
//! that maintains a stack of lexical scopes ("branes").

pub mod ast;
pub mod cst;
pub mod lexer;
pub mod parser;
pub mod props;
pub mod scope;
pub mod semantics;
pub mod syntax;
pub mod ubc;

pub use ast::{BinaryOp, Brane, Expr, Identifier, Program, Statement, UnaryOp};
pub use parser::{parse_program, ParseError};
pub use ubc::{Ubc, UbcError, Value};
