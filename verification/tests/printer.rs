use jsish::ast::{
    BinaryOperator, Declaration, ExpAssignData, ExpBinaryData, ExpUnaryData, Expression, Program,
    SourceElement, StIfData, Statement, UnaryOperator,
};
use jsish::parser::parse;
use jsish::printer::render;

fn program_of(source: &str) -> Program {
    parse(source.as_bytes().to_vec()).expect("the source parses")
}

fn rendered(source: &str) -> String {
    render(&program_of(source))
}

fn round_trips(source: &str) {
    let first = program_of(source);
    let text = render(&first);
    let second = parse(text.clone().into_bytes());
    assert_eq!(second, Ok(first), "text: {}", text);
}

#[test]
fn literals_are_written_as_they_are() {
    assert_eq!(rendered("42;"), "42;\n");
    assert_eq!(rendered("0042;"), "42;\n");
    assert_eq!(rendered("true; false; undefined; x1;"), "true;\nfalse;\nundefined;\nx1;\n");
    assert_eq!(rendered("\"abc\";"), "\"abc\";\n");
}

#[test]
fn compound_expressions_are_written_in_parentheses() {
    assert_eq!(rendered("1 + 2 * 3;"), "(1 + (2 * 3));\n");
    assert_eq!(rendered("(1 + 2) * 3;"), "((1 + 2) * 3);\n");
    assert_eq!(rendered("1 - 2 - 3;"), "((1 - 2) - 3);\n");
    assert_eq!(rendered("a , b;"), "(a , b);\n");
    assert_eq!(rendered("a<=b;"), "(a <= b);\n");
    assert_eq!(rendered("a&&b||c;"), "((a && b) || c);\n");
}

#[test]
fn prefix_expressions_are_written_without_a_space_but_for_typeof() {
    assert_eq!(rendered("!x;"), "(!x);\n");
    assert_eq!(rendered("-5;"), "(-5);\n");
    assert_eq!(rendered("- - 5;"), "(-(-5));\n");
    assert_eq!(rendered("typeof x;"), "(typeof x);\n");
    assert_eq!(rendered("typeof(x);"), "(typeof x);\n");
    assert_eq!(rendered("!(a == b);"), "(!(a == b));\n");
}

#[test]
fn conditional_and_assignment_expressions() {
    assert_eq!(rendered("a ? 1 : 2;"), "(a ? 1 : 2);\n");
    assert_eq!(rendered("a = b = 3;"), "(a = (b = 3));\n");
    assert_eq!(rendered("a ? b : c ? d : e;"), "(a ? b : (c ? d : e));\n");
}

#[test]
fn statements_are_written_one_to_a_line() {
    assert_eq!(rendered("print 1+2;"), "print (1 + 2);\n");
    assert_eq!(rendered("{ }"), "{\n}\n");
    assert_eq!(rendered("{ print 1; x; }"), "{\nprint 1;\nx;\n}\n");
    assert_eq!(
        rendered("if (x) { print 1; }"),
        "if (x) {\nprint 1;\n} else {\n}\n"
    );
    assert_eq!(
        rendered("if (x) { } else { y; }"),
        "if (x) {\n} else {\ny;\n}\n"
    );
    assert_eq!(
        rendered("while (x < 5) { x = x + 1; }"),
        "while ((x < 5)) {\n(x = (x + 1));\n}\n"
    );
}

#[test]
fn var_declarations_are_written_on_one_line() {
    assert_eq!(rendered("var a;"), "var a;\n");
    assert_eq!(rendered("var a = 1, b, c = a + 1;"), "var a = 1, b, c = (a + 1);\n");
}

#[test]
fn string_literals_are_written_with_escapes() {
    assert_eq!(rendered("\"a\\\"b\";"), "\"a\\\"b\";\n");
    assert_eq!(rendered("\"a\\\\b\";"), "\"a\\\\b\";\n");
    assert_eq!(
        rendered("\"\\n\\r\\t\\b\\v\\f\";"),
        "\"\\n\\r\\t\\b\\v\\f\";\n"
    );
    // A raw line break in a literal is written as an escape too.
    assert_eq!(rendered("\"a\nb\";"), "\"a\\nb\";\n");
    assert_eq!(rendered("\"h\u{e9}llo\";"), "\"h\u{e9}llo\";\n");
}

#[test]
fn the_empty_program_is_the_empty_text() {
    assert_eq!(rendered(""), "");
}

#[test]
fn to_text_of_every_kind_of_node() {
    let e = Expression::ExpBinary(ExpBinaryData {
        opr: BinaryOperator::BopPlus,
        lft: Box::new(Expression::ExpNum(1)),
        rht: Box::new(Expression::ExpUnary(ExpUnaryData {
            opr: UnaryOperator::UopTypeof,
            opnd: Box::new(Expression::ExpId("x".to_string())),
        })),
    });
    assert_eq!(e.to_text(), "(1 + (typeof x))");
    let s = Statement::StPrint(Expression::ExpString("a\tb".to_string()));
    assert_eq!(s.to_text(), "print \"a\\tb\";");
    let se = SourceElement::VarDecl(vec![
        Declaration::DeclId("a".to_string()),
        Declaration::DeclId("b".to_string()),
    ]);
    assert_eq!(se.to_text(), "var a, b;");
    let p = Program::Prog(vec![SourceElement::Stmt(s), se]);
    assert_eq!(p.to_text(), "print \"a\\tb\";\nvar a, b;\n");
    assert_eq!(render(&p), p.to_text());
}

#[test]
fn trees_that_the_parser_does_not_build_are_written_too() {
    assert_eq!(Expression::ExpNum(-5).to_text(), "-5");
    assert_eq!(Expression::ExpNum(i64::MIN).to_text(), "-9223372036854775808");
    let odd = Expression::ExpAssign(ExpAssignData {
        lft: Box::new(Expression::ExpNum(1)),
        rht: Box::new(Expression::ExpNum(2)),
    });
    assert_eq!(odd.to_text(), "(1 = 2)");
    let bare = Statement::StIf(StIfData {
        guard: Expression::ExpTrue,
        th: Box::new(Statement::StPrint(Expression::ExpNum(1))),
        el: Box::new(Statement::StBlock(vec![])),
    });
    assert_eq!(bare.to_text(), "if (true) print 1; else {\n}");
    assert_eq!(SourceElement::VarDecl(vec![]).to_text(), "var ;");
}

#[test]
fn printing_and_parsing_are_inverse() {
    round_trips("");
    round_trips("print 1 + 2 * 3;");
    round_trips("print -7 / 2; print 7 / -2;");
    round_trips("var x = 0; false && (x = 1); print x;");
    round_trips("print 1 == \"1\";");
    round_trips("var x = 1; while (x < 5) { x = x + 1; } print x;");
    round_trips("if (typeof 5 == \"number\") { print \"ok\"; } else { print \"no\"; } ");
    round_trips("a , b = c ? d || e && f == g < h + i * !j : k;");
    round_trips("var a, b = 1, c = (1, 2), d = a ? b : c;");
    round_trips("{ { { } } if (a) { while (b) { } } else { if (c) { } } }");
    round_trips("print \"quote \\\" backslash \\\\ controls \\n\\r\\t\\b\\v\\f end\";");
    round_trips("print \"h\u{e9}llo \u{4e16}\u{754c}\";");
    round_trips("\u{ea} = 1; print \u{ea};");
    round_trips("x = 9223372036854775807; y = - 9223372036854775807;");
    round_trips("!!true; - - - 1; typeof typeof x; typeof - ! x;");
    round_trips("a<b; a<=b; a>b; a>=b; a==b; a!=b; a=b; !a;");
    round_trips("truex; iff; elsee; whilee; printt; var1; typeofx;");
}

#[test]
fn printing_twice_gives_the_same_text() {
    let source = "var a = 1; if (a < 2) { print a ? \"x\" : -a; } else { a = a + 1; }";
    let once = rendered(source);
    assert_eq!(rendered(&once), once);
}
