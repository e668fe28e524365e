use jsish::ast::{
    BinaryOperator, Declaration, DeclInitData, ExpAssignData, ExpBinaryData, ExpCondData,
    ExpUnaryData, Expression, Program, SourceElement, StIfData, StWhileData, Statement,
    UnaryOperator,
};
use jsish::parser::{
    is_expression, is_expression_statement, is_source_element, is_statement, is_valid_lhs, parse,
    parse_expression, parse_statement, parse_stream, search_for_op,
};
use jsish::tokenizer::Token;
use jsish::types::{ByteStream, Expected, JsishError};

fn num(n: i64) -> Expression {
    Expression::ExpNum(n)
}

fn id(name: &str) -> Expression {
    Expression::ExpId(name.to_string())
}

fn bin(opr: BinaryOperator, lft: Expression, rht: Expression) -> Expression {
    Expression::ExpBinary(ExpBinaryData { opr, lft: Box::new(lft), rht: Box::new(rht) })
}

fn un(opr: UnaryOperator, opnd: Expression) -> Expression {
    Expression::ExpUnary(ExpUnaryData { opr, opnd: Box::new(opnd) })
}

fn cond(guard: Expression, then_exp: Expression, else_exp: Expression) -> Expression {
    Expression::ExpCond(ExpCondData {
        guard: Box::new(guard),
        then_exp: Box::new(then_exp),
        else_exp: Box::new(else_exp),
    })
}

fn assign(lft: Expression, rht: Expression) -> Expression {
    Expression::ExpAssign(ExpAssignData { lft: Box::new(lft), rht: Box::new(rht) })
}

fn program_of(source: &str) -> Program {
    parse(source.as_bytes().to_vec()).expect("the source parses")
}

fn error_of(source: &str) -> JsishError {
    parse(source.as_bytes().to_vec()).expect_err("the source does not parse")
}

/// The expression of a program that is one expression statement.
fn expression_of(source: &str) -> Expression {
    let Program::Prog(mut elems) = program_of(source);
    assert_eq!(elems.len(), 1);
    match elems.remove(0) {
        SourceElement::Stmt(Statement::StExp(e)) => e,
        other => panic!("no expression statement: {:?}", other),
    }
}

fn syntax_error(expected: Expected, found: Token) -> JsishError {
    JsishError::SyntaxError { expected, found }
}

#[test]
fn the_empty_program() {
    assert_eq!(program_of(""), Program::Prog(vec![]));
    assert_eq!(program_of("  \n\t "), Program::Prog(vec![]));
}

#[test]
fn literals_and_identifiers() {
    assert_eq!(expression_of("42;"), num(42));
    assert_eq!(expression_of("\"hi\";"), Expression::ExpString("hi".to_string()));
    assert_eq!(expression_of("true;"), Expression::ExpTrue);
    assert_eq!(expression_of("false;"), Expression::ExpFalse);
    assert_eq!(expression_of("undefined;"), Expression::ExpUndefined);
    assert_eq!(expression_of("x;"), id("x"));
}

#[test]
fn multiplication_binds_tighter_than_addition_in_the_tree() {
    assert_eq!(
        expression_of("1 + 2 * 3;"),
        bin(
            BinaryOperator::BopPlus,
            num(1),
            bin(BinaryOperator::BopTimes, num(2), num(3))
        )
    );
    assert_eq!(
        expression_of("1 * 2 + 3;"),
        bin(
            BinaryOperator::BopPlus,
            bin(BinaryOperator::BopTimes, num(1), num(2)),
            num(3)
        )
    );
}

#[test]
fn binary_operators_associate_to_the_left() {
    assert_eq!(
        expression_of("1 - 2 - 3;"),
        bin(
            BinaryOperator::BopMinus,
            bin(BinaryOperator::BopMinus, num(1), num(2)),
            num(3)
        )
    );
    assert_eq!(
        expression_of("8 / 4 % 3 * 2;"),
        bin(
            BinaryOperator::BopTimes,
            bin(
                BinaryOperator::BopMod,
                bin(BinaryOperator::BopDivide, num(8), num(4)),
                num(3)
            ),
            num(2)
        )
    );
}

#[test]
fn the_whole_ladder() {
    // a , b = c ? d || e && f == g < h + i * !j : k
    let expected = bin(
        BinaryOperator::BopComma,
        id("a"),
        assign(
            id("b"),
            cond(
                id("c"),
                bin(
                    BinaryOperator::BopOr,
                    id("d"),
                    bin(
                        BinaryOperator::BopAnd,
                        id("e"),
                        bin(
                            BinaryOperator::BopEq,
                            id("f"),
                            bin(
                                BinaryOperator::BopLt,
                                id("g"),
                                bin(
                                    BinaryOperator::BopPlus,
                                    id("h"),
                                    bin(
                                        BinaryOperator::BopTimes,
                                        id("i"),
                                        un(UnaryOperator::UopNot, id("j")),
                                    ),
                                ),
                            ),
                        ),
                    ),
                ),
                id("k"),
            ),
        ),
    );
    assert_eq!(
        expression_of("a , b = c ? d || e && f == g < h + i * !j : k;"),
        expected
    );
}

#[test]
fn every_binary_operator() {
    let cases = [
        ("+", BinaryOperator::BopPlus),
        ("-", BinaryOperator::BopMinus),
        ("*", BinaryOperator::BopTimes),
        ("/", BinaryOperator::BopDivide),
        ("%", BinaryOperator::BopMod),
        ("==", BinaryOperator::BopEq),
        ("!=", BinaryOperator::BopNe),
        ("<", BinaryOperator::BopLt),
        (">", BinaryOperator::BopGt),
        (">=", BinaryOperator::BopGe),
        ("<=", BinaryOperator::BopLe),
        ("&&", BinaryOperator::BopAnd),
        ("||", BinaryOperator::BopOr),
        (",", BinaryOperator::BopComma),
    ];
    for (symbol, opr) in cases {
        let source = format!("a {} b;", symbol);
        assert_eq!(expression_of(&source), bin(opr, id("a"), id("b")), "{}", symbol);
        assert_eq!(opr.symbol(), symbol);
    }
}

#[test]
fn equality_is_looser_than_relational() {
    assert_eq!(
        expression_of("1 < 2 == 3 >= 4;"),
        bin(
            BinaryOperator::BopEq,
            bin(BinaryOperator::BopLt, num(1), num(2)),
            bin(BinaryOperator::BopGe, num(3), num(4))
        )
    );
}

#[test]
fn parentheses_override_precedence() {
    assert_eq!(
        expression_of("(1 + 2) * 3;"),
        bin(
            BinaryOperator::BopTimes,
            bin(BinaryOperator::BopPlus, num(1), num(2)),
            num(3)
        )
    );
    assert_eq!(expression_of("((x));"), id("x"));
}

#[test]
fn prefix_operators() {
    assert_eq!(expression_of("!x;"), un(UnaryOperator::UopNot, id("x")));
    assert_eq!(expression_of("-5;"), un(UnaryOperator::UopMinus, num(5)));
    assert_eq!(expression_of("typeof x;"), un(UnaryOperator::UopTypeof, id("x")));
    assert_eq!(
        expression_of("-x * y;"),
        bin(
            BinaryOperator::BopTimes,
            un(UnaryOperator::UopMinus, id("x")),
            id("y")
        )
    );
    assert_eq!(UnaryOperator::UopNot.symbol(), "!");
    assert_eq!(UnaryOperator::UopTypeof.symbol(), "typeof");
    assert_eq!(UnaryOperator::UopMinus.symbol(), "-");
}

#[test]
fn prefix_operators_nest_to_the_right() {
    assert_eq!(
        expression_of("!!x;"),
        un(UnaryOperator::UopNot, un(UnaryOperator::UopNot, id("x")))
    );
    assert_eq!(
        expression_of("typeof - 5;"),
        un(UnaryOperator::UopTypeof, un(UnaryOperator::UopMinus, num(5)))
    );
}

#[test]
fn conditional_expressions() {
    assert_eq!(
        expression_of("a ? 1 : 2;"),
        cond(id("a"), num(1), num(2))
    );
    assert_eq!(
        expression_of("a ? b ? 1 : 2 : c ? 3 : 4;"),
        cond(
            id("a"),
            cond(id("b"), num(1), num(2)),
            cond(id("c"), num(3), num(4))
        )
    );
    assert_eq!(
        expression_of("a || b ? x = 1 : y = 2;"),
        cond(
            bin(BinaryOperator::BopOr, id("a"), id("b")),
            assign(id("x"), num(1)),
            assign(id("y"), num(2))
        )
    );
}

#[test]
fn assignment_associates_to_the_right() {
    assert_eq!(
        expression_of("a = b = 3;"),
        assign(id("a"), assign(id("b"), num(3)))
    );
}

#[test]
fn only_an_identifier_can_be_assigned_to() {
    assert_eq!(error_of("1 = 2;"), JsishError::InvalidAssignmentTarget);
    assert_eq!(error_of("a + b = 2;"), JsishError::InvalidAssignmentTarget);
    assert_eq!(error_of("(a + b) = 2;"), JsishError::InvalidAssignmentTarget);
    assert_eq!(error_of("(a ? b : c) = 2;"), JsishError::InvalidAssignmentTarget);
    assert_eq!(error_of("!a = 2;"), JsishError::InvalidAssignmentTarget);
}

#[test]
fn an_identifier_in_parentheses_can_be_assigned_to() {
    assert_eq!(expression_of("(a) = 2;"), assign(id("a"), num(2)));
}

#[test]
fn the_comma_is_the_loosest_operator() {
    assert_eq!(
        expression_of("a = 1, b = 2;"),
        bin(
            BinaryOperator::BopComma,
            assign(id("a"), num(1)),
            assign(id("b"), num(2))
        )
    );
}

#[test]
fn print_and_expression_statements() {
    assert_eq!(
        program_of("print 1; x;"),
        Program::Prog(vec![
            SourceElement::Stmt(Statement::StPrint(num(1))),
            SourceElement::Stmt(Statement::StExp(id("x"))),
        ])
    );
}

#[test]
fn blocks() {
    assert_eq!(
        program_of("{ } { print 1; { x; } }"),
        Program::Prog(vec![
            SourceElement::Stmt(Statement::StBlock(vec![])),
            SourceElement::Stmt(Statement::StBlock(vec![
                Statement::StPrint(num(1)),
                Statement::StBlock(vec![Statement::StExp(id("x"))]),
            ])),
        ])
    );
}

#[test]
fn if_without_else_has_an_empty_else_block() {
    assert_eq!(
        program_of("if (x) { print 1; }"),
        Program::Prog(vec![SourceElement::Stmt(Statement::StIf(StIfData {
            guard: id("x"),
            th: Box::new(Statement::StBlock(vec![Statement::StPrint(num(1))])),
            el: Box::new(Statement::StBlock(vec![])),
        }))])
    );
}

#[test]
fn if_with_else() {
    assert_eq!(
        program_of("if (x) { } else { y; }"),
        Program::Prog(vec![SourceElement::Stmt(Statement::StIf(StIfData {
            guard: id("x"),
            th: Box::new(Statement::StBlock(vec![])),
            el: Box::new(Statement::StBlock(vec![Statement::StExp(id("y"))])),
        }))])
    );
}

#[test]
fn while_statements() {
    assert_eq!(
        program_of("while (x < 5) { x = x + 1; }"),
        Program::Prog(vec![SourceElement::Stmt(Statement::StWhile(StWhileData {
            guard: bin(BinaryOperator::BopLt, id("x"), num(5)),
            body: Box::new(Statement::StBlock(vec![Statement::StExp(assign(
                id("x"),
                bin(BinaryOperator::BopPlus, id("x"), num(1))
            ))])),
        }))])
    );
}

#[test]
fn the_body_of_if_and_while_must_be_a_block() {
    assert_eq!(
        error_of("if (x) print 1;"),
        syntax_error(Expected::Token(Token::TkLbrace), Token::TkPrint)
    );
    assert_eq!(
        error_of("while (x) x = 1;"),
        syntax_error(Expected::Token(Token::TkLbrace), Token::TkId("x".to_string()))
    );
    assert_eq!(
        error_of("if (x) { } else print 1;"),
        syntax_error(Expected::Token(Token::TkLbrace), Token::TkPrint)
    );
}

#[test]
fn var_declarations() {
    assert_eq!(
        program_of("var a; var b = 1, c, d = b + 1;"),
        Program::Prog(vec![
            SourceElement::VarDecl(vec![Declaration::DeclId("a".to_string())]),
            SourceElement::VarDecl(vec![
                Declaration::DeclInit(DeclInitData { id: "b".to_string(), src: Box::new(num(1)) }),
                Declaration::DeclId("c".to_string()),
                Declaration::DeclInit(DeclInitData {
                    id: "d".to_string(),
                    src: Box::new(bin(BinaryOperator::BopPlus, id("b"), num(1))),
                }),
            ]),
        ])
    );
}

#[test]
fn var_is_for_the_top_level_only() {
    assert_eq!(
        error_of("{ var x; }"),
        syntax_error(Expected::Token(Token::TkRbrace), Token::TkVar)
    );
}

#[test]
fn errors_in_var_declarations() {
    assert_eq!(
        error_of("var 1;"),
        syntax_error(Expected::Identifier, Token::TkNum(1))
    );
    assert_eq!(
        error_of("var x"),
        syntax_error(Expected::Token(Token::TkSemi), Token::TkEof)
    );
    assert_eq!(
        error_of("var x, ;"),
        syntax_error(Expected::Identifier, Token::TkSemi)
    );
    assert_eq!(
        error_of("var x = ;"),
        syntax_error(Expected::Value, Token::TkSemi)
    );
}

#[test]
fn syntax_errors_carry_what_was_expected_and_what_was_found() {
    assert_eq!(
        error_of("print 1"),
        syntax_error(Expected::Token(Token::TkSemi), Token::TkEof)
    );
    assert_eq!(
        error_of("print ;"),
        syntax_error(Expected::Value, Token::TkSemi)
    );
    assert_eq!(
        error_of("(1 + 2;"),
        syntax_error(Expected::Token(Token::TkRparen), Token::TkSemi)
    );
    assert_eq!(
        error_of("a ? b ;"),
        syntax_error(Expected::Token(Token::TkColon), Token::TkSemi)
    );
    assert_eq!(
        error_of("1 + * 2;"),
        syntax_error(Expected::Value, Token::TkTimes)
    );
    assert_eq!(
        error_of("if x { }"),
        syntax_error(Expected::Token(Token::TkLparen), Token::TkId("x".to_string()))
    );
    assert_eq!(
        error_of("{ print 1;"),
        syntax_error(Expected::Token(Token::TkRbrace), Token::TkEof)
    );
}

#[test]
fn a_program_must_go_to_the_end_of_the_input() {
    assert_eq!(
        error_of("print 1; }"),
        syntax_error(Expected::Token(Token::TkEof), Token::TkRbrace)
    );
    assert_eq!(
        error_of("print 1; else"),
        syntax_error(Expected::Token(Token::TkEof), Token::TkElse)
    );
    assert_eq!(
        error_of("this;"),
        syntax_error(Expected::Token(Token::TkEof), Token::TkThis)
    );
}

#[test]
fn lexical_errors_come_out_of_the_parser() {
    assert_eq!(error_of("print #;"), JsishError::UnknownToken);
    assert_eq!(error_of("print \"abc;"), JsishError::UnterminatedString);
    assert_eq!(error_of("print \"\\x\";"), JsishError::InvalidEscapeSequence);
    assert_eq!(error_of("x = 99999999999999999999;"), JsishError::InvalidInteger);
    assert_eq!(error_of("x &"), JsishError::UnexpectedEof);
    assert_eq!(
        parse(vec![b'p', b'r', 0xff, b';']).expect_err("no valid text"),
        JsishError::InvalidEncoding
    );
}

#[test]
fn the_first_error_wins() {
    // The unknown character stands before the missing semicolon.
    assert_eq!(error_of("print 1 # 2"), JsishError::UnknownToken);
    // The syntax error stands before the unknown character.
    assert_eq!(
        error_of("print ) #"),
        syntax_error(Expected::Value, Token::TkRparen)
    );
}

#[test]
fn parse_stream_reads_what_is_left_in_the_stream() {
    let mut itr = ByteStream::new(b"skipped; print 2;".to_vec());
    for _ in 0..8 {
        itr.next();
    }
    assert_eq!(
        parse_stream(&mut itr),
        Ok(Program::Prog(vec![SourceElement::Stmt(Statement::StPrint(num(2)))]))
    );
}

#[test]
fn first_sets() {
    let starts_expression = [
        Token::TkLparen,
        Token::TkId("x".to_string()),
        Token::TkNum(1),
        Token::TkString("s".to_string()),
        Token::TkTrue,
        Token::TkFalse,
        Token::TkUndefined,
        Token::TkNot,
        Token::TkTypeof,
        Token::TkMinus,
    ];
    for tk in &starts_expression {
        assert!(is_expression(tk), "{:?}", tk);
        assert!(is_expression_statement(tk), "{:?}", tk);
        assert!(is_statement(tk), "{:?}", tk);
        assert!(is_source_element(tk), "{:?}", tk);
    }
    for tk in [Token::TkPrint, Token::TkLbrace, Token::TkIf, Token::TkWhile] {
        assert!(!is_expression(&tk), "{:?}", tk);
        assert!(!is_expression_statement(&tk), "{:?}", tk);
        assert!(is_statement(&tk), "{:?}", tk);
        assert!(is_source_element(&tk), "{:?}", tk);
    }
    assert!(!is_statement(&Token::TkVar));
    assert!(is_source_element(&Token::TkVar));
    for tk in [
        Token::TkRbrace,
        Token::TkRparen,
        Token::TkSemi,
        Token::TkElse,
        Token::TkEof,
        Token::TkPlus,
        Token::TkFunction,
        Token::TkNew,
        Token::TkThis,
        Token::TkAssign,
        Token::TkComma,
    ] {
        assert!(!is_expression(&tk), "{:?}", tk);
        assert!(!is_statement(&tk), "{:?}", tk);
        assert!(!is_source_element(&tk), "{:?}", tk);
    }
}

#[test]
fn valid_left_sides() {
    assert!(is_valid_lhs(&id("x")));
    assert!(!is_valid_lhs(&num(1)));
    assert!(!is_valid_lhs(&Expression::ExpString("x".to_string())));
    assert!(!is_valid_lhs(&assign(id("x"), num(1))));
}

#[test]
fn search_for_op_finds_the_first_match() {
    let table = vec![
        (Token::TkPlus, 1),
        (Token::TkMinus, 2),
        (Token::TkPlus, 3),
    ];
    assert_eq!(search_for_op(&Token::TkPlus, &table), Some(&(Token::TkPlus, 1)));
    assert_eq!(search_for_op(&Token::TkMinus, &table), Some(&(Token::TkMinus, 2)));
    assert_eq!(search_for_op(&Token::TkTimes, &table), None);
    let empty: Vec<(Token, i32)> = vec![];
    assert_eq!(search_for_op(&Token::TkPlus, &empty), None);
}

#[test]
fn a_copy_of_a_tree_is_equal_to_the_tree() {
    let source = "var a = 1, b; if (a < 2) { print a ? \"x\" : -a; } else { while (b) { a = !b; } }";
    let p = program_of(source);
    let copy = p.clone();
    assert_eq!(copy, p);
    let e = expression_of("a , b = c ? d || e && f == g < h + i * !j : \"k\";");
    assert_eq!(e.clone(), e);
    if let Expression::ExpBinary(d) = &e {
        assert_eq!(d.clone(), *d);
    } else {
        panic!("no binary expression");
    }
}

#[test]
fn a_token_that_starts_no_statement_where_one_must_stand() {
    let mut itr = ByteStream::new(b" x; }".to_vec());
    assert_eq!(
        parse_statement(&mut itr, Token::TkRbrace),
        Err(JsishError::ExpectedStatement)
    );
    let mut itr = ByteStream::new(b"".to_vec());
    assert_eq!(parse_statement(&mut itr, Token::TkEof), Err(JsishError::ExpectedStatement));
    let mut itr = ByteStream::new(b"x;".to_vec());
    assert_eq!(parse_statement(&mut itr, Token::TkVar), Err(JsishError::ExpectedStatement));
}

#[test]
fn productions_give_the_tree_and_the_next_token() {
    // The current token is `1`; the stream stands behind it.
    let mut itr = ByteStream::new(b" + 2 ; print 3;".to_vec());
    assert_eq!(
        parse_expression(&mut itr, Token::TkNum(1)),
        Ok((bin(BinaryOperator::BopPlus, num(1), num(2)), Token::TkSemi))
    );
    assert_eq!(itr.peek(), Some(b' '));
    let mut itr = ByteStream::new(b" 1; x".to_vec());
    assert_eq!(
        parse_statement(&mut itr, Token::TkPrint),
        Ok((Statement::StPrint(num(1)), Token::TkId("x".to_string())))
    );
    assert_eq!(itr.peek(), None);
}

#[test]
fn after_an_error_the_stream_stands_where_the_error_was_met() {
    // The token that does not fit has been read; what follows it has not.
    let mut itr = ByteStream::new(b"print 1 2; x".to_vec());
    assert_eq!(
        parse_stream(&mut itr),
        Err(syntax_error(Expected::Token(Token::TkSemi), Token::TkNum(2)))
    );
    assert_eq!(itr.peek(), Some(b';'));
    // A character that starts no token stays in the stream.
    let mut itr = ByteStream::new(b"print #;".to_vec());
    assert_eq!(parse_stream(&mut itr), Err(JsishError::UnknownToken));
    assert_eq!(itr.peek(), Some(b'#'));
    // After a program that parses nothing is left.
    let mut itr = ByteStream::new(b"print 1;  \n".to_vec());
    assert!(parse_stream(&mut itr).is_ok());
    assert_eq!(itr.peek(), None);
}
