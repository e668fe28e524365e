use jsish::ast::{
    BinaryOperator, ExpAssignData, Expression, Program, SourceElement, Statement, UnaryOperator,
};
use jsish::interpreter::{
    apply_binary_operator, apply_unary_operator, eval_expression, eval_statement, interpret,
    interpret_bounded, special_divide, special_remainder, unary_error, value_type_strings,
    Environment, Value,
};
use jsish::parser::parse;
use jsish::types::{Guarded, JsishError, TypeMismatch, ValueKind};

fn program_of(source: &str) -> Program {
    parse(source.as_bytes().to_vec()).expect("the source parses")
}

fn run(source: &str) -> (Result<(), JsishError>, String) {
    let mut out = String::new();
    let res = interpret(program_of(source), &mut out);
    (res, out)
}

fn output_of(source: &str) -> String {
    let (res, out) = run(source);
    assert_eq!(res, Ok(()), "source: {}", source);
    out
}

fn error_of(source: &str) -> JsishError {
    run(source).0.expect_err("the program fails")
}

fn binary_mismatch(opr: BinaryOperator, lft: ValueKind, rht: ValueKind) -> JsishError {
    JsishError::TypeError(TypeMismatch::Binary { opr, lft, rht })
}

fn text(s: &str) -> Value {
    Value::StringValue(s.to_string())
}

#[test]
fn print_writes_values_in_their_natural_form() {
    assert_eq!(output_of("print 42;"), "42");
    assert_eq!(output_of("print -42;"), "-42");
    assert_eq!(output_of("print \"a b\";"), "a b");
    assert_eq!(output_of("print true; print false;"), "truefalse");
    assert_eq!(output_of("print undefined;"), "undefined");
    assert_eq!(output_of("print \"a\\nb\";"), "a\nb");
    assert_eq!(output_of("print 1; print \" \"; print 2;"), "1 2");
}

#[test]
fn print_appends_to_what_is_in_the_sink() {
    let mut out = String::from("before|");
    assert_eq!(interpret(program_of("print 1;"), &mut out), Ok(()));
    assert_eq!(out, "before|1");
}

#[test]
fn arithmetic() {
    assert_eq!(output_of("print 2 + 3;"), "5");
    assert_eq!(output_of("print 2 - 3;"), "-1");
    assert_eq!(output_of("print 2 * 3;"), "6");
    assert_eq!(output_of("print 7 / 2;"), "3");
    assert_eq!(output_of("print 6 / 3;"), "2");
    assert_eq!(output_of("print -6 / 3;"), "-2");
    assert_eq!(output_of("print 0 / 5;"), "0");
    assert_eq!(output_of("print - - 5;"), "5");
}

#[test]
fn the_remainder_has_the_sign_of_the_dividend() {
    assert_eq!(output_of("print 7 % 2;"), "1");
    assert_eq!(output_of("print -7 % 2;"), "-1");
    assert_eq!(output_of("print 7 % -2;"), "1");
    assert_eq!(output_of("print -7 % -2;"), "-1");
    assert_eq!(output_of("print 6 % 3;"), "0");
}

#[test]
fn special_divide_rounds_toward_negative_infinity() {
    assert_eq!(special_divide(7, 2), 3);
    assert_eq!(special_divide(-7, 2), -4);
    assert_eq!(special_divide(7, -2), -4);
    assert_eq!(special_divide(-7, -2), 3);
    assert_eq!(special_divide(-6, 2), -3);
    assert_eq!(special_divide(6, -2), -3);
    assert_eq!(special_divide(0, -2), 0);
    assert_eq!(special_divide(-1, 2), -1);
    assert_eq!(special_divide(1, -2), -1);
    assert_eq!(special_divide(i64::MIN, 1), i64::MIN);
    assert_eq!(special_divide(i64::MIN, 2), i64::MIN / 2);
    assert_eq!(special_divide(i64::MIN, i64::MIN), 1);
    assert_eq!(special_divide(i64::MAX, -1), -i64::MAX);
    assert_eq!(special_divide(i64::MAX, i64::MIN), -1);
    assert_eq!(special_divide(i64::MIN, i64::MAX), -2);
    // Exact where a detour over floating point would not be.
    assert_eq!(special_divide(-9007199254740993, 2), -4503599627370497);
    assert_eq!(special_divide(-(1 << 62) - 1, 2), -(1 << 61) - 1);
}

#[test]
fn special_divide_obeys_the_floor_law() {
    let samples: [i64; 11] = [-100, -7, -3, -2, -1, 0, 1, 2, 3, 7, 100];
    for a in samples {
        for b in samples {
            if b == 0 {
                continue;
            }
            let q = special_divide(a, b);
            if b > 0 {
                assert!(q * b <= a && a < (q + 1) * b, "{} / {}", a, b);
            } else {
                assert!(q * b >= a && a > (q + 1) * b, "{} / {}", a, b);
            }
            let r = special_remainder(a, b);
            assert_eq!(r, a % b, "{} % {}", a, b);
        }
    }
}

#[test]
fn special_remainder_at_the_edges() {
    assert_eq!(special_remainder(i64::MIN, -1), 0);
    assert_eq!(special_remainder(i64::MIN, i64::MAX), -1);
    assert_eq!(special_remainder(i64::MAX, i64::MIN), i64::MAX);
}

#[test]
fn division_by_zero_is_fatal() {
    assert_eq!(error_of("print 1 / 0;"), JsishError::DivisionByZero);
    assert_eq!(error_of("print 1 % 0;"), JsishError::DivisionByZero);
    assert_eq!(error_of("print 0 / 0;"), JsishError::DivisionByZero);
    assert!(JsishError::DivisionByZero.is_fatal());
    assert!(JsishError::ArithmeticOverflow.is_fatal());
    assert!(!JsishError::UnknownToken.is_fatal());
    assert!(!JsishError::IterationLimit.is_fatal());
}

#[test]
fn results_that_do_not_fit_are_fatal() {
    assert_eq!(
        error_of("print 9223372036854775807 + 1;"),
        JsishError::ArithmeticOverflow
    );
    assert_eq!(
        error_of("print -9223372036854775807 - 2;"),
        JsishError::ArithmeticOverflow
    );
    assert_eq!(
        error_of("print 4611686018427387904 * 2;"),
        JsishError::ArithmeticOverflow
    );
    assert_eq!(
        error_of("print (-9223372036854775807 - 1) / -1;"),
        JsishError::ArithmeticOverflow
    );
    assert_eq!(
        error_of("print -(-9223372036854775807 - 1);"),
        JsishError::ArithmeticOverflow
    );
    assert_eq!(
        output_of("print -9223372036854775807 - 1;"),
        "-9223372036854775808"
    );
    assert_eq!(output_of("print (-9223372036854775807 - 1) % -1;"), "0");
}

#[test]
fn strings_are_joined_by_plus() {
    assert_eq!(output_of("print \"ab\" + \"cd\";"), "abcd");
    assert_eq!(output_of("print \"\" + \"\";"), "");
    assert_eq!(output_of("print \"a\" + \"b\" + \"c\";"), "abc");
}

#[test]
fn arithmetic_on_other_kinds_is_a_type_error() {
    assert_eq!(
        error_of("print 1 + true;"),
        binary_mismatch(BinaryOperator::BopPlus, ValueKind::Number, ValueKind::Boolean)
    );
    assert_eq!(
        error_of("print \"a\" + 1;"),
        binary_mismatch(BinaryOperator::BopPlus, ValueKind::Text, ValueKind::Number)
    );
    assert_eq!(
        error_of("print \"a\" - \"b\";"),
        binary_mismatch(BinaryOperator::BopMinus, ValueKind::Text, ValueKind::Text)
    );
    assert_eq!(
        error_of("print undefined * 2;"),
        binary_mismatch(BinaryOperator::BopTimes, ValueKind::Undefined, ValueKind::Number)
    );
    assert_eq!(
        error_of("print true / 0;"),
        binary_mismatch(BinaryOperator::BopDivide, ValueKind::Boolean, ValueKind::Number)
    );
    assert_eq!(
        error_of("print 1 % \"2\";"),
        binary_mismatch(BinaryOperator::BopMod, ValueKind::Number, ValueKind::Text)
    );
}

#[test]
fn equality_compares_values_of_any_kinds() {
    assert_eq!(output_of("print 1 == 1;"), "true");
    assert_eq!(output_of("print 1 == 2;"), "false");
    assert_eq!(output_of("print 1 != 2;"), "true");
    assert_eq!(output_of("print \"a\" == \"a\";"), "true");
    assert_eq!(output_of("print \"a\" != \"a\";"), "false");
    assert_eq!(output_of("print true == true;"), "true");
    assert_eq!(output_of("print undefined == undefined;"), "true");
    assert_eq!(output_of("print 1 == \"1\";"), "false");
    assert_eq!(output_of("print 1 != \"1\";"), "true");
    assert_eq!(output_of("print 0 == false;"), "false");
    assert_eq!(output_of("print undefined == false;"), "false");
    assert_eq!(output_of("print \"\" != undefined;"), "true");
}

#[test]
fn relational_operators_compare_numbers() {
    assert_eq!(output_of("print 1 < 2; print 2 < 2; print 3 < 2;"), "truefalsefalse");
    assert_eq!(output_of("print 1 <= 2; print 2 <= 2; print 3 <= 2;"), "truetruefalse");
    assert_eq!(output_of("print 1 > 2; print 2 > 2; print 3 > 2;"), "falsefalsetrue");
    assert_eq!(output_of("print 1 >= 2; print 2 >= 2; print 3 >= 2;"), "falsetruetrue");
    assert_eq!(output_of("print -1 < 0;"), "true");
}

#[test]
fn relational_operators_on_other_kinds_are_type_errors() {
    assert_eq!(
        error_of("print \"a\" < \"b\";"),
        binary_mismatch(BinaryOperator::BopLt, ValueKind::Text, ValueKind::Text)
    );
    assert_eq!(
        error_of("print 1 <= true;"),
        binary_mismatch(BinaryOperator::BopLe, ValueKind::Number, ValueKind::Boolean)
    );
    assert_eq!(
        error_of("print undefined > 1;"),
        binary_mismatch(BinaryOperator::BopGt, ValueKind::Undefined, ValueKind::Number)
    );
    assert_eq!(
        error_of("print true >= false;"),
        binary_mismatch(BinaryOperator::BopGe, ValueKind::Boolean, ValueKind::Boolean)
    );
}

#[test]
fn logical_operators() {
    assert_eq!(output_of("print true && true;"), "true");
    assert_eq!(output_of("print true && false;"), "false");
    assert_eq!(output_of("print false && true;"), "false");
    assert_eq!(output_of("print false || true;"), "true");
    assert_eq!(output_of("print false || false;"), "false");
    assert_eq!(output_of("print true || false;"), "true");
}

#[test]
fn logical_operators_short_circuit() {
    assert_eq!(output_of("var x = 0; false && (x = 1); print x;"), "0");
    assert_eq!(output_of("var x = 0; true || (x = 1); print x;"), "0");
    assert_eq!(output_of("var x = 0; true && (x = 1) == 1; print x;"), "1");
    assert_eq!(output_of("var x = 0; false || (x = 1) == 1; print x;"), "1");
    // What is skipped may even be ill-typed or unbound.
    assert_eq!(output_of("print false && 1;"), "false");
    assert_eq!(output_of("print true || nothing;"), "true");
}

#[test]
fn logical_operators_need_booleans() {
    assert_eq!(
        error_of("print 1 && true;"),
        JsishError::TypeError(TypeMismatch::LeftOperand {
            opr: BinaryOperator::BopAnd,
            found: ValueKind::Number
        })
    );
    assert_eq!(
        error_of("print \"a\" || true;"),
        JsishError::TypeError(TypeMismatch::LeftOperand {
            opr: BinaryOperator::BopOr,
            found: ValueKind::Text
        })
    );
    assert_eq!(
        error_of("print true && 1;"),
        binary_mismatch(BinaryOperator::BopAnd, ValueKind::Boolean, ValueKind::Number)
    );
    assert_eq!(
        error_of("print false || undefined;"),
        binary_mismatch(BinaryOperator::BopOr, ValueKind::Boolean, ValueKind::Undefined)
    );
}

#[test]
fn prefix_operators_evaluate() {
    assert_eq!(output_of("print !true; print !false;"), "falsetrue");
    assert_eq!(output_of("print -(3);"), "-3");
    assert_eq!(output_of("print typeof 5;"), "number");
    assert_eq!(output_of("print typeof \"5\";"), "string");
    assert_eq!(output_of("print typeof true;"), "boolean");
    assert_eq!(output_of("print typeof undefined;"), "undefined");
    assert_eq!(output_of("print typeof typeof 1;"), "string");
}

#[test]
fn prefix_operators_on_other_kinds_are_type_errors() {
    assert_eq!(
        error_of("print !1;"),
        JsishError::TypeError(TypeMismatch::Unary {
            opr: UnaryOperator::UopNot,
            found: ValueKind::Number
        })
    );
    assert_eq!(
        error_of("print -\"a\";"),
        JsishError::TypeError(TypeMismatch::Unary {
            opr: UnaryOperator::UopMinus,
            found: ValueKind::Text
        })
    );
    assert_eq!(
        error_of("print -true;"),
        JsishError::TypeError(TypeMismatch::Unary {
            opr: UnaryOperator::UopMinus,
            found: ValueKind::Boolean
        })
    );
}

#[test]
fn typeof_an_unbound_variable_is_an_error() {
    assert_eq!(
        error_of("print typeof nothing;"),
        JsishError::UndefinedVariable { name: "nothing".to_string() }
    );
}

#[test]
fn conditional_expressions_evaluate_one_branch() {
    assert_eq!(output_of("print true ? 1 : 2;"), "1");
    assert_eq!(output_of("print false ? 1 : 2;"), "2");
    assert_eq!(output_of("var x = 0; true ? (x = 1) : (x = 2); print x;"), "1");
    assert_eq!(output_of("var x = 0; false ? (x = 1) : (x = 2); print x;"), "2");
    assert_eq!(output_of("print true ? 1 : nothing;"), "1");
    assert_eq!(
        error_of("print 1 ? 2 : 3;"),
        JsishError::TypeError(TypeMismatch::Guard {
            construct: Guarded::Conditional,
            found: ValueKind::Number
        })
    );
}

#[test]
fn the_comma_gives_its_right_operand() {
    assert_eq!(output_of("print (1, 2);"), "2");
    assert_eq!(output_of("var x; print (x = 5, x + 1);"), "6");
    assert_eq!(error_of("print (nothing, 2);"), JsishError::UndefinedVariable {
        name: "nothing".to_string()
    });
}

#[test]
fn assignment_binds_and_gives_the_value() {
    assert_eq!(output_of("x = 5; print x;"), "5");
    assert_eq!(output_of("print x = 5;"), "5");
    assert_eq!(output_of("a = b = 3; print a; print b;"), "33");
    assert_eq!(output_of("x = 1; x = \"s\"; print x;"), "s");
    assert_eq!(output_of("x = 1; x = x + 1; print x;"), "2");
}

#[test]
fn the_right_side_is_evaluated_before_the_target_is_looked_at() {
    let odd = Program::Prog(vec![SourceElement::Stmt(Statement::StExp(
        Expression::ExpAssign(ExpAssignData {
            lft: Box::new(Expression::ExpNum(1)),
            rht: Box::new(Expression::ExpId("nothing".to_string())),
        }),
    ))]);
    let mut out = String::new();
    assert_eq!(
        interpret(odd, &mut out),
        Err(JsishError::UndefinedVariable { name: "nothing".to_string() })
    );
    let odd = Program::Prog(vec![SourceElement::Stmt(Statement::StExp(
        Expression::ExpAssign(ExpAssignData {
            lft: Box::new(Expression::ExpNum(1)),
            rht: Box::new(Expression::ExpNum(2)),
        }),
    ))]);
    assert_eq!(interpret(odd, &mut out), Err(JsishError::NonIdentifierTarget));
}

#[test]
fn reading_an_unbound_variable_is_an_error() {
    assert_eq!(
        error_of("print x;"),
        JsishError::UndefinedVariable { name: "x".to_string() }
    );
    assert_eq!(
        error_of("x = y;"),
        JsishError::UndefinedVariable { name: "y".to_string() }
    );
}

#[test]
fn operands_are_evaluated_from_left_to_right() {
    assert_eq!(output_of("var x = 1; print (x = 2) + x;"), "4");
    assert_eq!(output_of("var x = 1; print x + (x = 2);"), "3");
    assert_eq!(
        error_of("print nothing + (1 / 0);"),
        JsishError::UndefinedVariable { name: "nothing".to_string() }
    );
    assert_eq!(error_of("print (1 / 0) + nothing;"), JsishError::DivisionByZero);
    // Both operands are evaluated before the kinds are looked at.
    assert_eq!(
        error_of("print true + nothing;"),
        JsishError::UndefinedVariable { name: "nothing".to_string() }
    );
}

#[test]
fn var_declarations_bind_names() {
    assert_eq!(output_of("var x; print x;"), "undefined");
    assert_eq!(output_of("var x = 1, y = x + 1, z; print x; print y; print z;"), "12undefined");
    assert_eq!(output_of("var x = 1; var x; print x;"), "undefined");
    assert_eq!(
        error_of("var x = y;"),
        JsishError::UndefinedVariable { name: "y".to_string() }
    );
    assert_eq!(output_of("var a = 1, b = (a = 5); print a; print b;"), "55");
}

#[test]
fn blocks_share_the_one_environment() {
    assert_eq!(output_of("{ x = 1; } print x;"), "1");
    assert_eq!(output_of("x = 1; { x = 2; { x = 3; } } print x;"), "3");
    assert_eq!(output_of("{ }"), "");
}

#[test]
fn if_executes_one_branch() {
    assert_eq!(output_of("if (true) { print 1; } else { print 2; }"), "1");
    assert_eq!(output_of("if (false) { print 1; } else { print 2; }"), "2");
    assert_eq!(output_of("if (false) { print 1; }"), "");
    assert_eq!(
        output_of("if (typeof 5 == \"number\") { print \"ok\"; } else { print \"no\"; } "),
        "ok"
    );
    assert_eq!(
        error_of("if (1) { }"),
        JsishError::TypeError(TypeMismatch::Guard {
            construct: Guarded::If,
            found: ValueKind::Number
        })
    );
    assert_eq!(output_of("if (true) { } else { print nothing; }"), "");
}

#[test]
fn while_repeats_until_the_guard_is_false() {
    assert_eq!(output_of("var x = 1; while (x < 5) { x = x + 1; } print x;"), "5");
    assert_eq!(output_of("while (false) { print 1; }"), "");
    assert_eq!(
        output_of("var i = 0; while (i < 3) { print i; i = i + 1; }"),
        "012"
    );
    assert_eq!(
        output_of(
            "var i = 0; while (i < 3) { j = 0; while (j < 2) { print i * 10 + j; print \" \"; j = j + 1; } i = i + 1; }"
        ),
        "0 1 10 11 20 21 "
    );
}

#[test]
fn the_guard_of_while_is_evaluated_afresh_every_time() {
    assert_eq!(
        output_of("var i = 0; while ((i = i + 1) < 4) { print i; }"),
        "123"
    );
}

#[test]
fn a_guard_of_while_that_is_no_boolean_is_a_type_error() {
    assert_eq!(
        error_of("while (1) { }"),
        JsishError::TypeError(TypeMismatch::Guard {
            construct: Guarded::While,
            found: ValueKind::Number
        })
    );
    let (res, out) = run("var x = true; while (x) { print 1; x = \"no\"; }");
    assert_eq!(
        res,
        Err(JsishError::TypeError(TypeMismatch::Guard {
            construct: Guarded::While,
            found: ValueKind::Text
        }))
    );
    assert_eq!(out, "1");
}

#[test]
fn what_was_printed_before_an_error_stays_printed() {
    let (res, out) = run("print 1; print 2; print 1 + true; print 3;");
    assert_eq!(
        res,
        Err(binary_mismatch(BinaryOperator::BopPlus, ValueKind::Number, ValueKind::Boolean))
    );
    assert_eq!(out, "12");
    let (res, out) = run("print \"a\"; { print \"b\"; print 1 / 0; } print \"c\";");
    assert_eq!(res, Err(JsishError::DivisionByZero));
    assert_eq!(out, "ab");
}

#[test]
fn the_same_program_fails_the_same_way_every_time() {
    let first = run("print 1 + true;");
    let second = run("print 1 + true;");
    assert_eq!(first, second);
    let err = first.0.expect_err("a type error");
    let message = err.message();
    assert!(message.contains("'+'"));
    assert!(message.contains("number"));
    assert!(message.contains("boolean"));
}

#[test]
fn a_loop_that_goes_on_too_long_is_stopped() {
    let p = program_of("var i = 0; while (true) { i = i + 1; print i; }");
    let mut out = String::new();
    assert_eq!(interpret_bounded(&p, 3, &mut out), Err(JsishError::IterationLimit));
    assert_eq!(out, "123");
    let mut out = String::new();
    assert_eq!(interpret_bounded(&p, 0, &mut out), Err(JsishError::IterationLimit));
    assert_eq!(out, "");
}

#[test]
fn the_limit_is_on_each_loop_of_its_own() {
    let p = program_of(
        "var i = 0; while (i < 3) { i = i + 1; j = 0; while (j < 3) { j = j + 1; } } print i;",
    );
    let mut out = String::new();
    assert_eq!(interpret_bounded(&p, 3, &mut out), Ok(()));
    assert_eq!(out, "3");
    let mut out = String::new();
    assert_eq!(interpret_bounded(&p, 2, &mut out), Err(JsishError::IterationLimit));
    let q = program_of("var i = 0; while (i < 3) { i = i + 1; } while (i < 6) { i = i + 1; } print i;");
    let mut out = String::new();
    assert_eq!(interpret_bounded(&q, 3, &mut out), Ok(()));
    assert_eq!(out, "6");
}

#[test]
fn a_loop_within_the_limit_runs_to_its_end() {
    let p = program_of("var i = 0; while (i < 1000) { i = i + 1; } print i;");
    let mut out = String::new();
    assert_eq!(interpret_bounded(&p, 1000, &mut out), Ok(()));
    assert_eq!(out, "1000");
    let mut out = String::new();
    assert_eq!(interpret_bounded(&p, 999, &mut out), Err(JsishError::IterationLimit));
}

#[test]
fn environment_binds_and_overwrites() {
    let mut env = Environment::new();
    assert_eq!(env.get(&"x".to_string()), None);
    env.insert("x".to_string(), Value::NumValue(1));
    env.insert("y".to_string(), text("s"));
    assert_eq!(env.get(&"x".to_string()), Some(Value::NumValue(1)));
    assert_eq!(env.get(&"y".to_string()), Some(text("s")));
    env.insert("x".to_string(), Value::BoolValue(true));
    assert_eq!(env.get(&"x".to_string()), Some(Value::BoolValue(true)));
    assert_eq!(env.get(&"y".to_string()), Some(text("s")));
    assert_eq!(env.get(&"z".to_string()), None);
    assert_eq!(env.get(&"".to_string()), None);
}

#[test]
fn eval_expression_changes_the_environment_it_is_given() {
    let mut env = Environment::new();
    env.insert("x".to_string(), Value::NumValue(2));
    let Program::Prog(mut elems) = program_of("y = x * 21;");
    let exp = match elems.remove(0) {
        SourceElement::Stmt(Statement::StExp(e)) => e,
        _ => unreachable!(),
    };
    assert_eq!(eval_expression(&exp, &mut env), Ok(Value::NumValue(42)));
    assert_eq!(env.get(&"y".to_string()), Some(Value::NumValue(42)));
    assert_eq!(env.get(&"x".to_string()), Some(Value::NumValue(2)));
}

#[test]
fn eval_statement_prints_into_the_sink() {
    let mut env = Environment::new();
    env.insert("x".to_string(), text("hi"));
    let mut out = String::new();
    let stmt = Statement::StPrint(Expression::ExpId("x".to_string()));
    assert_eq!(eval_statement(&stmt, &mut env, &mut out, 10), Ok(()));
    assert_eq!(eval_statement(&stmt, &mut env, &mut out, 10), Ok(()));
    assert_eq!(out, "hihi");
}

#[test]
fn values_and_their_kinds() {
    assert_eq!(Value::NumValue(1).kind(), ValueKind::Number);
    assert_eq!(text("a").kind(), ValueKind::Text);
    assert_eq!(Value::BoolValue(false).kind(), ValueKind::Boolean);
    assert_eq!(Value::UndefinedValue.kind(), ValueKind::Undefined);
    assert_eq!(value_type_strings(&Value::NumValue(1)), "number");
    assert_eq!(value_type_strings(&text("a")), "string");
    assert_eq!(value_type_strings(&Value::BoolValue(true)), "boolean");
    assert_eq!(value_type_strings(&Value::UndefinedValue), "undefined");
    assert_eq!(ValueKind::Number.name(), "number");
    assert_eq!(ValueKind::Text.name(), "string");
    assert_eq!(ValueKind::Boolean.name(), "boolean");
    assert_eq!(ValueKind::Undefined.name(), "undefined");
}

#[test]
fn values_compare_by_kind_and_content() {
    assert_eq!(Value::NumValue(1), Value::NumValue(1));
    assert_ne!(Value::NumValue(1), Value::NumValue(2));
    assert_ne!(Value::NumValue(1), text("1"));
    assert_ne!(Value::NumValue(0), Value::BoolValue(false));
    assert_ne!(Value::UndefinedValue, Value::BoolValue(false));
    assert_eq!(text("a"), text("a").clone());
    assert_eq!(Value::UndefinedValue, Value::UndefinedValue);
}

#[test]
fn value_text_is_what_print_writes() {
    assert_eq!(Value::NumValue(-12).to_text(), "-12");
    assert_eq!(Value::NumValue(i64::MIN).to_text(), "-9223372036854775808");
    assert_eq!(text("a \"b\"").to_text(), "a \"b\"");
    assert_eq!(Value::BoolValue(true).to_text(), "true");
    assert_eq!(Value::BoolValue(false).to_text(), "false");
    assert_eq!(Value::UndefinedValue.to_text(), "undefined");
}

#[test]
fn operators_applied_to_values() {
    assert_eq!(
        apply_unary_operator(UnaryOperator::UopNot, Value::BoolValue(true)),
        Ok(Value::BoolValue(false))
    );
    assert_eq!(
        apply_unary_operator(UnaryOperator::UopMinus, Value::NumValue(i64::MAX)),
        Ok(Value::NumValue(-i64::MAX))
    );
    assert_eq!(
        apply_unary_operator(UnaryOperator::UopMinus, Value::NumValue(i64::MIN)),
        Err(JsishError::ArithmeticOverflow)
    );
    assert_eq!(
        apply_unary_operator(UnaryOperator::UopTypeof, Value::UndefinedValue),
        Ok(text("undefined"))
    );
    assert_eq!(
        apply_binary_operator(BinaryOperator::BopPlus, text("a"), text("b")),
        Ok(text("ab"))
    );
    assert_eq!(
        apply_binary_operator(BinaryOperator::BopComma, text("a"), Value::NumValue(1)),
        Ok(Value::NumValue(1))
    );
    assert_eq!(
        apply_binary_operator(BinaryOperator::BopDivide, Value::NumValue(-7), Value::NumValue(2)),
        Ok(Value::NumValue(-4))
    );
    assert_eq!(
        apply_binary_operator(BinaryOperator::BopEq, Value::UndefinedValue, Value::NumValue(0)),
        Ok(Value::BoolValue(false))
    );
    assert_eq!(
        apply_binary_operator(BinaryOperator::BopAnd, Value::BoolValue(true), Value::BoolValue(true)),
        Err(binary_mismatch(BinaryOperator::BopAnd, ValueKind::Boolean, ValueKind::Boolean))
    );
    assert_eq!(
        unary_error(UnaryOperator::UopNot, &Value::NumValue(1)),
        JsishError::TypeError(TypeMismatch::Unary {
            opr: UnaryOperator::UopNot,
            found: ValueKind::Number
        })
    );
}

#[test]
fn what_was_assigned_before_an_error_stays_assigned() {
    let mut env = Environment::new();
    let Program::Prog(mut elems) = program_of("(x = 5) + nothing;");
    let exp = match elems.remove(0) {
        SourceElement::Stmt(Statement::StExp(e)) => e,
        _ => unreachable!(),
    };
    assert_eq!(
        eval_expression(&exp, &mut env),
        Err(JsishError::UndefinedVariable { name: "nothing".to_string() })
    );
    assert_eq!(env.get(&"x".to_string()), Some(Value::NumValue(5)));
    let stmt = Statement::StBlock(vec![
        Statement::StExp(Expression::ExpAssign(ExpAssignData {
            lft: Box::new(Expression::ExpId("y".to_string())),
            rht: Box::new(Expression::ExpNum(1)),
        })),
        Statement::StPrint(Expression::ExpId("y".to_string())),
        Statement::StPrint(Expression::ExpId("nothing".to_string())),
        Statement::StPrint(Expression::ExpNum(2)),
    ]);
    let mut out = String::new();
    assert_eq!(
        eval_statement(&stmt, &mut env, &mut out, 10),
        Err(JsishError::UndefinedVariable { name: "nothing".to_string() })
    );
    assert_eq!(out, "1");
    assert_eq!(env.get(&"y".to_string()), Some(Value::NumValue(1)));
}
