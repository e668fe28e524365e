use jsish::interpreter::interpret;
use jsish::parser::parse;
use jsish::types::{JsishError, TypeMismatch, ValueKind};
use jsish::ast::BinaryOperator;

fn run(source: &str) -> (Result<(), JsishError>, String) {
    let program = parse(source.as_bytes().to_vec()).expect("the source parses");
    let mut out = String::new();
    let res = interpret(program, &mut out);
    (res, out)
}

#[test]
fn floor_division_rounds_toward_negative_infinity() {
    assert_eq!(run("print -7 / 2;").1, "-4");
    assert_eq!(run("print 7 / -2;").1, "-4");
    assert_eq!(run("print 7 / 2;").1, "3");
    assert_eq!(run("print -7 / -2;").1, "3");
}

#[test]
fn multiplication_binds_tighter_than_addition() {
    assert_eq!(run("print 1 + 2 * 3;").1, "7");
}

#[test]
fn short_circuit_skips_the_right_operand() {
    let (res, out) = run("var x = 0; false && (x = 1); print x;");
    assert_eq!(res, Ok(()));
    assert_eq!(out, "0");
}

#[test]
fn equality_across_kinds_is_false() {
    let (res, out) = run("print 1 == \"1\";");
    assert_eq!(res, Ok(()));
    assert_eq!(out, "false");
}

#[test]
fn while_loop_counts_up() {
    assert_eq!(run("var x = 1; while (x < 5) { x = x + 1; } print x;").1, "5");
}

#[test]
fn typeof_in_a_condition() {
    let src = "if (typeof 5 == \"number\") { print \"ok\"; } else { print \"no\"; } ";
    assert_eq!(run(src).1, "ok");
}

#[test]
fn adding_a_boolean_to_a_number_is_a_type_error() {
    let expected = JsishError::TypeError(TypeMismatch::Binary {
        opr: BinaryOperator::BopPlus,
        lft: ValueKind::Number,
        rht: ValueKind::Boolean,
    });
    let (first, _) = run("print 1 + true;");
    let (second, _) = run("print 1 + true;");
    assert_eq!(first, Err(expected.clone()));
    assert_eq!(first, second);
    let message = expected.message();
    assert_eq!(
        message,
        "operator '+' requires number * number or string * string, found number * boolean"
    );
}
