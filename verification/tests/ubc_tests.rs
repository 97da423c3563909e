use foolish_rust::{Ubc, UbcError, Value};

fn run(source: &str) -> Value {
    let mut ubc = Ubc::from_source(source).expect("failed to create UBC");
    ubc.run_to_completion()
        .expect("execution error")
        .cloned()
        .unwrap_or(Value::Nothing)
}

fn run_err(source: &str) -> UbcError {
    let mut ubc = Ubc::from_source(source).expect("failed to create UBC");
    ubc.run_to_completion().expect_err("expected an error")
}

#[test]
fn evaluates_arithmetic_expressions() {
    let result = run("{ 1 + 2 * 3; }");
    assert_eq!(result, Value::Int(7));
}

#[test]
fn supports_assignments_and_references() {
    let result = run("{ x = 10; y = x + 5; y; }");
    assert_eq!(result, Value::Int(15));
}

#[test]
fn evaluates_nested_branes() {
    let result = run("{ inner = { 1; 2; }; inner; }");
    match result {
        Value::Brane(values) => {
            assert_eq!(values.len(), 2);
            assert_eq!(values[0], Value::Int(1));
            assert_eq!(values[1], Value::Int(2));
        }
        other => panic!("expected brane value, got {:?}", other),
    }
}

#[test]
fn detects_unknown_identifiers() {
    let mut ubc = Ubc::from_source("{ x + 1; }").expect("parsed");
    let err = ubc.step().expect_err("expected error");
    match err {
        foolish_rust::UbcError::UnknownIdentifier(name) => assert_eq!(name, "x"),
        other => panic!("unexpected error: {:?}", other),
    }
}

#[test]
fn subtraction_is_left_associative() {
    assert_eq!(run("{ 10 - 3 - 2; }"), Value::Int(5));
}

#[test]
fn division_by_zero_is_reported() {
    let err = run_err("{ 5 / 0; }");
    assert!(matches!(err, UbcError::DivisionByZero));
}

#[test]
fn unary_negation_evaluates() {
    assert_eq!(run("{ -5; }"), Value::Int(-5));
}

#[test]
fn double_negation_is_a_syntax_error() {
    let err = Ubc::from_source("{ - -5; }").expect_err("the grammar disallows chained negation");
    assert!(matches!(
        err,
        UbcError::Parse(foolish_rust::ParseError::Syntax { .. })
    ));
}

#[test]
fn parentheses_override_precedence() {
    assert_eq!(run("{ (1 + 2) * 3; }"), Value::Int(9));
}

#[test]
fn division_truncates_toward_zero() {
    assert_eq!(run("{ -7 / 2; }"), Value::Int(-3));
    assert_eq!(run("{ 7 / 2; }"), Value::Int(3));
}

#[test]
fn addition_wraps_around() {
    assert_eq!(
        run("{ 9223372036854775807 + 1; }"),
        Value::Int(i64::MIN)
    );
}

#[test]
fn empty_brane_evaluates_to_nothing() {
    assert_eq!(run("{ x = { }; x; }"), Value::Nothing);
}

#[test]
fn inner_bindings_do_not_escape_their_brane() {
    let err = run_err("{ inner = { a = 1; 2; }; a; }");
    match err {
        UbcError::UnknownIdentifier(name) => assert_eq!(name, "a"),
        other => panic!("unexpected error: {:?}", other),
    }
}

#[test]
fn inner_assignment_shadows_without_overwriting() {
    assert_eq!(run("{ x = 1; y = { x = 2; x; }; x; }"), Value::Int(1));
}

#[test]
fn assignment_keeps_earlier_bindings() {
    assert_eq!(run("{ x = 10; y = x + 5; x; }"), Value::Int(10));
}

#[test]
fn step_reports_exhaustion_idempotently() {
    let mut ubc = Ubc::from_source("{ 1; 2; }").expect("parsed");
    assert!(ubc.step().expect("first step"));
    assert!(ubc.step().expect("second step"));
    assert!(ubc.is_complete());
    assert!(!ubc.step().expect("exhausted step"));
    assert!(!ubc.step().expect("still exhausted"));
    assert!(ubc.is_complete());
    assert_eq!(ubc.result(), Some(&Value::Int(2)));
}

#[test]
fn stepping_yields_intermediate_results() {
    let mut ubc = Ubc::from_source("{ x = 4; x * x; }").expect("parsed");
    assert!(!ubc.is_complete());
    assert!(ubc.step().expect("first step"));
    assert_eq!(ubc.result(), Some(&Value::Int(4)));
    assert!(ubc.step().expect("second step"));
    assert_eq!(ubc.result(), Some(&Value::Int(16)));
    assert!(ubc.is_complete());
}

#[test]
fn assignment_value_is_the_step_result() {
    assert_eq!(run("{ x = 42; }"), Value::Int(42));
}
