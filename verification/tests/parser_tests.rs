use foolish_rust::ast::{BinaryOp, Expr, Statement};
use foolish_rust::cst::{AddExprCst, MulExprCst, PostfixExprCst, PrimaryCst, UnaryExprCst};
use foolish_rust::cst::{CharInnerCst, CharacterizableCst, LiteralCst};
use foolish_rust::lexer::{TokKind, Token};
use foolish_rust::parser::{build_add_expr, build_literal, ParseError};
use foolish_rust::parse_program;

#[test]
fn parses_simple_program() {
    let source = "{ x = 1 + 2 * 3; y = x - 4; y; }";
    let program = parse_program(source).expect("failed to parse");
    assert_eq!(program.brane.statements.len(), 3);

    match &program.brane.statements[0] {
        Statement::Assign { target, expr } => {
            assert_eq!(target, "x");
            match expr {
                Expr::Binary { op, left, right } => {
                    assert_eq!(*op, BinaryOp::Add);
                    assert!(matches!(**left, Expr::Int(1)));
                    match &**right {
                        Expr::Binary { op, left, right } => {
                            assert_eq!(*op, BinaryOp::Multiply);
                            assert!(matches!(**left, Expr::Int(2)));
                            assert!(matches!(**right, Expr::Int(3)));
                        }
                        other => panic!("unexpected right expression: {:?}", other),
                    }
                }
                other => panic!("unexpected expr: {:?}", other),
            }
        }
        other => panic!("unexpected statement: {:?}", other),
    }
}

#[test]
fn parsing_is_deterministic() {
    let source = "{ a = 1 + 2; { a; 3; }; }";
    let first = parse_program(source).expect("first parse");
    let second = parse_program(source).expect("second parse");
    assert_eq!(first, second);
}

#[test]
fn rejects_multiple_branes() {
    let err = parse_program("{ 1; } { 2; }").expect_err("two branes");
    assert!(matches!(err, ParseError::Unsupported(_)));
}

#[test]
fn rejects_empty_statements() {
    let err = parse_program("{ ; }").expect_err("empty statement");
    match err {
        ParseError::Unsupported(msg) => assert_eq!(msg, "empty statement"),
        other => panic!("unexpected error: {:?}", other),
    }
}

#[test]
fn rejects_if_expressions() {
    let err = parse_program("{ if; }").expect_err("if expression");
    match err {
        ParseError::Unsupported(msg) => assert_eq!(msg, "if expressions are not supported"),
        other => panic!("unexpected error: {:?}", other),
    }
}

#[test]
fn rejects_member_access() {
    let err = parse_program("{ x.y; }").expect_err("member access");
    match err {
        ParseError::Unsupported(msg) => assert_eq!(msg, "member access is not supported"),
        other => panic!("unexpected error: {:?}", other),
    }
}

#[test]
fn rejects_unary_star() {
    let err = parse_program("{ *5; }").expect_err("unary star");
    match err {
        ParseError::Unsupported(msg) => assert_eq!(msg, "unary '*' is not supported"),
        other => panic!("unexpected error: {:?}", other),
    }
}

#[test]
fn rejects_apostrophe_identifiers() {
    let err = parse_program("{ 'x = 1; }").expect_err("apostrophe target");
    match err {
        ParseError::Unsupported(msg) => {
            assert_eq!(msg, "apostrophe-delimited identifiers are not supported")
        }
        other => panic!("unexpected error: {:?}", other),
    }
}

#[test]
fn rejects_apostrophe_values() {
    let err = parse_program("{ x = 'y; }").expect_err("apostrophe value");
    match err {
        ParseError::Unsupported(msg) => assert_eq!(msg, "prefixed characterizable values"),
        other => panic!("unexpected error: {:?}", other),
    }
}

#[test]
fn rejects_unknown_literals() {
    let err = parse_program("{ #; }").expect_err("unknown literal");
    match err {
        ParseError::Unsupported(msg) => assert_eq!(msg, "unknown literal"),
        other => panic!("unexpected error: {:?}", other),
    }
}

#[test]
fn rejects_oversized_integer_literals() {
    let err = parse_program("{ 99999999999999999999; }").expect_err("oversized literal");
    match err {
        ParseError::Unsupported(msg) => {
            assert_eq!(msg, "invalid integer literal '99999999999999999999'")
        }
        other => panic!("unexpected error: {:?}", other),
    }
}

#[test]
fn accepts_literals_with_leading_zeros() {
    let program = parse_program("{ 007; }").expect("leading zeros");
    match &program.brane.statements[0] {
        Statement::Expr(Expr::Int(v)) => assert_eq!(*v, 7),
        other => panic!("unexpected statement: {:?}", other),
    }
}

#[test]
fn syntax_errors_carry_token_positions() {
    let err = parse_program("{ 1 + ; }").expect_err("missing operand");
    match err {
        ParseError::Syntax { line, column, .. } => {
            assert_eq!(line, 1);
            assert_eq!(column, 7);
        }
        other => panic!("unexpected error: {:?}", other),
    }
}

fn int_token(text: &str) -> Token {
    Token { kind: TokKind::Integer, text: text.to_string(), line: 1, column: 1 }
}

fn mul_of_literal(text: &str) -> MulExprCst {
    MulExprCst {
        first: UnaryExprCst {
            prefix: None,
            postfix: PostfixExprCst {
                primary: PrimaryCst::Characterizable(CharacterizableCst {
                    apostrophe: false,
                    inner: CharInnerCst::Literal(LiteralCst { token: int_token(text) }),
                }),
                members: Vec::new(),
            },
        },
        rest: Vec::new(),
    }
}

#[test]
fn rejects_foreign_operator_tokens() {
    let bad_op = Token { kind: TokKind::Dot, text: ".".to_string(), line: 1, column: 4 };
    let chain = AddExprCst {
        first: mul_of_literal("1"),
        rest: vec![(bad_op, mul_of_literal("2"))],
    };
    let err = build_add_expr(&chain).expect_err("foreign operator token");
    match err {
        ParseError::Unsupported(msg) => assert_eq!(msg, "unsupported additive operator token"),
        other => panic!("unexpected error: {:?}", other),
    }
}

#[test]
fn rejects_non_digit_literal_text() {
    let err =
        build_literal(&LiteralCst { token: int_token("12a") }).expect_err("non-digit literal");
    match err {
        ParseError::Unsupported(msg) => assert_eq!(msg, "invalid integer literal '12a'"),
        other => panic!("unexpected error: {:?}", other),
    }
}

#[test]
fn lowers_largest_integer_literal() {
    let program = parse_program("{ 9223372036854775807; }").expect("largest literal");
    match &program.brane.statements[0] {
        Statement::Expr(Expr::Int(v)) => assert_eq!(*v, i64::MAX),
        other => panic!("unexpected statement: {:?}", other),
    }
}
