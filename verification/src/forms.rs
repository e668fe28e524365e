//! How the productions of the grammar fit together: a result at one level
//! of the precedence ladder is a result at the levels above it, and each
//! form of expression and of statement is read from the results for its
//! parts.
//!
//! The relations at the end of this file say that a production reads a
//! given tree between two states of the parser. They are opaque: to use
//! them, go through the lemmas that are stated over them.
use vstd::prelude::*;
use crate::ast::{
    BinaryOperator, DeclarationView, ExpressionView, ProgramView, SourceElementView, StatementView,
    UnaryOperator,
};
use crate::parser::{
    parsed, stepped, advance, atom, expect, lemma_advance_progress, lemma_assignment_progress,
    lemma_binary_progress, lemma_conditional_progress, lemma_expression_progress,
    lemma_operand_progress, lemma_source_element_progress, lemma_statement_progress,
    lemma_variable_element_progress, level_height, level_operator, parse_assignment_expression_spec,
    parse_binary_expression_spec, parse_binary_rest_spec, parse_block_statement_spec,
    parse_comma_repetition_spec, parse_conditional_expression_spec, parse_else_spec,
    parse_expression_spec, parse_expression_statement_spec, parse_guarded_block_spec,
    parse_if_statement_spec, parse_operand_spec, parse_parenthesized_expression_spec,
    parse_primary_expression_spec, parse_print_statement_spec, parse_repetition_spec,
    parse_source_element_spec, parse_source_elements_spec, parse_spec, parse_statement_spec,
    parse_unary_expression_spec, parse_variable_element_spec, parse_variable_elements_spec,
    parse_while_statement_spec, prefix_operator, starts_expression, starts_source_element,
    starts_statement, BinaryLevel, Parsed,
};
use crate::pieces::{binary_token, lemma_binary_token, level_of};
use crate::tokenizer::TokenView;
use crate::types::{ExpectedView, JsishErrorView};

verus! {

/// Whether `tk` starts a primary expression.
pub open spec fn opens_primary(tk: TokenView) -> bool {
    tk is Lparen || atom(tk) is Some
}

/// Whether `tk` can follow an assignment expression without continuing it:
/// it is no binary operator below the comma, no `?` and no `=`.
pub open spec fn ends_assignment(tk: TokenView) -> bool {
    &&& forall|level: BinaryLevel|
        level != BinaryLevel::Comma ==> #[trigger] level_operator(level, tk) is None
    &&& tk != TokenView::Question
    &&& tk != TokenView::Assign
}

/// Whether `tk` can follow an expression without continuing it.
pub open spec fn ends_expression(tk: TokenView) -> bool {
    ends_assignment(tk) && tk != TokenView::Comma
}

/// Whether `tk` is no operator of a level tighter than `level`, so that it
/// can follow an operand of `level`.
pub open spec fn ends_operand(level: BinaryLevel, tk: TokenView) -> bool {
    &&& forall|below: BinaryLevel|
        level_height(below) < level_height(level) ==> #[trigger] level_operator(below, tk) is None
    &&& level == BinaryLevel::Comma ==> tk != TokenView::Question && tk != TokenView::Assign
}

/// A chain of a level that meets no operator of the level is its operand.
pub proof fn lemma_chain_of_one(
    level: BinaryLevel,
    tk0: TokenView,
    s0: Seq<u8>,
    y: ExpressionView,
    tk: TokenView,
    s: Seq<u8>,
)
    requires
        parse_operand_spec(level, tk0, s0) == parsed(y, tk, s),
        level_operator(level, tk) is None,
    ensures
        parse_binary_expression_spec(level, tk0, s0) == parse_operand_spec(level, tk0, s0),
{
    lemma_operand_progress(level, tk0, s0);
}

/// A conditional expression that meets no `?` is its guard.
pub proof fn lemma_conditional_of_one(
    tk0: TokenView,
    s0: Seq<u8>,
    y: ExpressionView,
    tk: TokenView,
    s: Seq<u8>,
)
    requires
        parse_binary_expression_spec(BinaryLevel::Or, tk0, s0) == parsed(y, tk, s),
        tk != TokenView::Question,
    ensures
        parse_conditional_expression_spec(tk0, s0) == parse_binary_expression_spec(
            BinaryLevel::Or,
            tk0,
            s0,
        ),
{
}

/// An assignment expression that meets no `=` is its left side.
pub proof fn lemma_assignment_of_one(
    tk0: TokenView,
    s0: Seq<u8>,
    y: ExpressionView,
    tk: TokenView,
    s: Seq<u8>,
)
    requires
        parse_conditional_expression_spec(tk0, s0) == parsed(y, tk, s),
        tk != TokenView::Assign,
    ensures
        parse_assignment_expression_spec(tk0, s0) == parse_conditional_expression_spec(tk0, s0),
{
}

/// A result at a level below the comma is a result at every level above it,
/// up to the assignment, if what follows continues none of them.
pub proof fn lemma_climb_from(
    level: BinaryLevel,
    tk0: TokenView,
    s0: Seq<u8>,
    y: ExpressionView,
    tk: TokenView,
    s: Seq<u8>,
)
    requires
        level != BinaryLevel::Comma,
        parse_binary_expression_spec(level, tk0, s0) == parsed(y, tk, s),
        ends_assignment(tk),
    ensures
        parse_assignment_expression_spec(tk0, s0) == parsed(y, tk, s),
    decreases 10 - level_height(level),
{
    let next = match level {
        BinaryLevel::Multiplicative => BinaryLevel::Additive,
        BinaryLevel::Additive => BinaryLevel::Relational,
        BinaryLevel::Relational => BinaryLevel::Equality,
        BinaryLevel::Equality => BinaryLevel::And,
        BinaryLevel::And => BinaryLevel::Or,
        _ => BinaryLevel::Or,
    };
    if level == BinaryLevel::Or {
        lemma_conditional_of_one(tk0, s0, y, tk, s);
        lemma_assignment_of_one(tk0, s0, y, tk, s);
    } else {
        assert(parse_operand_spec(next, tk0, s0) == parse_binary_expression_spec(level, tk0, s0));
        assert(level_operator(next, tk) is None);
        lemma_chain_of_one(next, tk0, s0, y, tk, s);
        lemma_climb_from(next, tk0, s0, y, tk, s);
    }
}

/// An assignment expression that no comma follows is an expression.
pub proof fn lemma_expression_of_one(
    tk0: TokenView,
    s0: Seq<u8>,
    y: ExpressionView,
    tk: TokenView,
    s: Seq<u8>,
)
    requires
        parse_assignment_expression_spec(tk0, s0) == parsed(y, tk, s),
        tk != TokenView::Comma,
    ensures
        parse_expression_spec(tk0, s0) == parse_assignment_expression_spec(tk0, s0),
{
    assert(parse_operand_spec(BinaryLevel::Comma, tk0, s0) == parse_assignment_expression_spec(
        tk0,
        s0,
    ));
    assert(level_operator(BinaryLevel::Comma, tk) is None);
    lemma_chain_of_one(BinaryLevel::Comma, tk0, s0, y, tk, s);
}

/// A prefix expression is an operand of every level whose tighter levels
/// what follows does not continue.
pub proof fn lemma_operand_of_unary(
    level: BinaryLevel,
    tk0: TokenView,
    s0: Seq<u8>,
    y: ExpressionView,
    tk: TokenView,
    s: Seq<u8>,
)
    requires
        parse_unary_expression_spec(tk0, s0) == parsed(y, tk, s),
        ends_operand(level, tk),
    ensures
        parse_operand_spec(level, tk0, s0) == parsed(y, tk, s),
    decreases level_height(level),
{
    match level {
        BinaryLevel::Multiplicative => {},
        BinaryLevel::Comma => {
            lemma_operand_of_unary(BinaryLevel::Or, tk0, s0, y, tk, s);
            assert(level_operator(BinaryLevel::Or, tk) is None);
            lemma_chain_of_one(BinaryLevel::Or, tk0, s0, y, tk, s);
            lemma_conditional_of_one(tk0, s0, y, tk, s);
            lemma_assignment_of_one(tk0, s0, y, tk, s);
        },
        _ => {
            let below = match level {
                BinaryLevel::Additive => BinaryLevel::Multiplicative,
                BinaryLevel::Relational => BinaryLevel::Additive,
                BinaryLevel::Equality => BinaryLevel::Relational,
                BinaryLevel::And => BinaryLevel::Equality,
                _ => BinaryLevel::And,
            };
            lemma_operand_of_unary(below, tk0, s0, y, tk, s);
            assert(level_operator(below, tk) is None);
            lemma_chain_of_one(below, tk0, s0, y, tk, s);
        },
    }
}

/// A prefix expression that nothing continues is an assignment expression,
/// and an expression if no comma follows.
pub proof fn lemma_expression_of_unary(
    tk0: TokenView,
    s0: Seq<u8>,
    y: ExpressionView,
    tk: TokenView,
    s: Seq<u8>,
)
    requires
        parse_unary_expression_spec(tk0, s0) == parsed(y, tk, s),
        ends_assignment(tk),
    ensures
        parse_assignment_expression_spec(tk0, s0) == parsed(y, tk, s),
        tk != TokenView::Comma ==> parse_expression_spec(tk0, s0) == parsed(y, tk, s),
{
    lemma_operand_of_unary(BinaryLevel::Comma, tk0, s0, y, tk, s);
    if tk != TokenView::Comma {
        lemma_expression_of_one(tk0, s0, y, tk, s);
    }
}

/// `operand operator operand`, with nothing that continues it behind it.
proof fn lemma_parse_binary_form(
    opr: BinaryOperator,
    tk0: TokenView,
    s0: Seq<u8>,
    l: ExpressionView,
    s1: Seq<u8>,
    tk2: TokenView,
    s2: Seq<u8>,
    r: ExpressionView,
    tk3: TokenView,
    s3: Seq<u8>,
)
    requires
        parse_unary_expression_spec(tk0, s0) == parsed(l, binary_token(opr), s1),
        advance(s1) == stepped(tk2, s2),
        parse_unary_expression_spec(tk2, s2) == parsed(r, tk3, s3),
        ends_expression(tk3),
    ensures
        parse_expression_spec(tk0, s0) == parsed(
            ExpressionView::Binary(opr, Box::new(l), Box::new(r)),
            tk3,
            s3,
        ),
{
    let level = level_of(opr);
    let tk1 = binary_token(opr);
    let e = ExpressionView::Binary(opr, Box::new(l), Box::new(r));
    lemma_binary_token(opr);
    assert(ends_operand(level, tk1)) by {
        assert forall|below: BinaryLevel|
            level_height(below) < level_height(level) implies #[trigger] level_operator(
            below,
            tk1,
        ) is None by {
            assert(below != level);
        }
    }
    lemma_operand_of_unary(level, tk0, s0, l, tk1, s1);
    lemma_operand_of_unary(level, tk2, s2, r, tk3, s3);
    lemma_operand_progress(level, tk0, s0);
    lemma_advance_progress(tk1, s1);
    lemma_operand_progress(level, tk2, s2);
    assert(level_operator(level, tk3) is None);
    assert(parse_binary_rest_spec(level, e, tk3, s3) == parsed(e, tk3, s3));
    assert(parse_binary_rest_spec(level, l, tk1, s1) == parsed(e, tk3, s3));
    assert(parse_binary_expression_spec(level, tk0, s0) == parsed(e, tk3, s3));
    if level != BinaryLevel::Comma {
        lemma_climb_from(level, tk0, s0, e, tk3, s3);
        lemma_expression_of_one(tk0, s0, e, tk3, s3);
    }
}

/// `operator operand`, with nothing that continues it behind it.
proof fn lemma_parse_prefix_form(
    opr: UnaryOperator,
    tk0: TokenView,
    s0: Seq<u8>,
    tk1: TokenView,
    s1: Seq<u8>,
    x: ExpressionView,
    tk2: TokenView,
    s2: Seq<u8>,
)
    requires
        prefix_operator(tk0) == Some(opr),
        advance(s0) == stepped(tk1, s1),
        parse_unary_expression_spec(tk1, s1) == parsed(x, tk2, s2),
        ends_expression(tk2),
    ensures
        parse_expression_spec(tk0, s0) == parsed(ExpressionView::Unary(opr, Box::new(x)), tk2, s2),
{
    let e = ExpressionView::Unary(opr, Box::new(x));
    lemma_advance_progress(tk0, s0);
    assert(parse_unary_expression_spec(tk0, s0) == parsed(e, tk2, s2));
    lemma_expression_of_unary(tk0, s0, e, tk2, s2);
}

/// `guard ? branch : branch`, with nothing that continues it behind it.
proof fn lemma_parse_conditional_form(
    tk0: TokenView,
    s0: Seq<u8>,
    g: ExpressionView,
    s1: Seq<u8>,
    tk2: TokenView,
    s2: Seq<u8>,
    a: ExpressionView,
    s3: Seq<u8>,
    tk4: TokenView,
    s4: Seq<u8>,
    b: ExpressionView,
    tk5: TokenView,
    s5: Seq<u8>,
)
    requires
        parse_unary_expression_spec(tk0, s0) == parsed(g, TokenView::Question, s1),
        advance(s1) == stepped(tk2, s2),
        parse_unary_expression_spec(tk2, s2) == parsed(a, TokenView::Colon, s3),
        advance(s3) == stepped(tk4, s4),
        parse_unary_expression_spec(tk4, s4) == parsed(b, tk5, s5),
        ends_expression(tk5),
    ensures
        parse_expression_spec(tk0, s0) == parsed(
            ExpressionView::Cond(Box::new(g), Box::new(a), Box::new(b)),
            tk5,
            s5,
        ),
{
    let e = ExpressionView::Cond(Box::new(g), Box::new(a), Box::new(b));
    lemma_operand_of_unary(BinaryLevel::Or, tk0, s0, g, TokenView::Question, s1);
    lemma_chain_of_one(BinaryLevel::Or, tk0, s0, g, TokenView::Question, s1);
    lemma_expression_of_unary(tk2, s2, a, TokenView::Colon, s3);
    lemma_expression_of_unary(tk4, s4, b, tk5, s5);
    lemma_binary_progress(BinaryLevel::Or, tk0, s0);
    lemma_advance_progress(TokenView::Question, s1);
    lemma_assignment_progress(tk2, s2);
    lemma_advance_progress(TokenView::Colon, s3);
    assert(expect(TokenView::Colon, s3, TokenView::Colon) == advance(s3));
    assert(parse_conditional_expression_spec(tk0, s0) == parsed(e, tk5, s5));
    lemma_assignment_of_one(tk0, s0, e, tk5, s5);
    lemma_expression_of_one(tk0, s0, e, tk5, s5);
}

/// `identifier = value`, with nothing that continues it behind it.
proof fn lemma_parse_assignment_form(
    tk0: TokenView,
    s0: Seq<u8>,
    name: Seq<char>,
    s1: Seq<u8>,
    tk2: TokenView,
    s2: Seq<u8>,
    r: ExpressionView,
    tk3: TokenView,
    s3: Seq<u8>,
)
    requires
        parse_unary_expression_spec(tk0, s0) == parsed(
            ExpressionView::Id(name),
            TokenView::Assign,
            s1,
        ),
        advance(s1) == stepped(tk2, s2),
        parse_unary_expression_spec(tk2, s2) == parsed(r, tk3, s3),
        ends_expression(tk3),
    ensures
        parse_expression_spec(tk0, s0) == parsed(
            ExpressionView::Assign(Box::new(ExpressionView::Id(name)), Box::new(r)),
            tk3,
            s3,
        ),
{
    let l = ExpressionView::Id(name);
    let e = ExpressionView::Assign(Box::new(l), Box::new(r));
    lemma_operand_of_unary(BinaryLevel::Or, tk0, s0, l, TokenView::Assign, s1);
    lemma_chain_of_one(BinaryLevel::Or, tk0, s0, l, TokenView::Assign, s1);
    lemma_conditional_of_one(tk0, s0, l, TokenView::Assign, s1);
    lemma_expression_of_unary(tk2, s2, r, tk3, s3);
    lemma_conditional_progress(tk0, s0);
    lemma_advance_progress(TokenView::Assign, s1);
    assert(parse_assignment_expression_spec(tk0, s0) == parsed(e, tk3, s3));
    lemma_expression_of_one(tk0, s0, e, tk3, s3);
}

/// `( expression )`.
proof fn lemma_parse_parenthesized_form(
    s0: Seq<u8>,
    tk1: TokenView,
    s1: Seq<u8>,
    e: ExpressionView,
    s2: Seq<u8>,
    tk3: TokenView,
    s3: Seq<u8>,
)
    requires
        advance(s0) == stepped(tk1, s1),
        parse_expression_spec(tk1, s1) == parsed(e, TokenView::Rparen, s2),
        advance(s2) == stepped(tk3, s3),
    ensures
        parse_primary_expression_spec(TokenView::Lparen, s0) == parsed(e, tk3, s3),
        parse_unary_expression_spec(TokenView::Lparen, s0) == parsed(e, tk3, s3),
{
    lemma_advance_progress(TokenView::Lparen, s0);
    assert(expect(TokenView::Lparen, s0, TokenView::Lparen) == advance(s0));
    assert(expect(TokenView::Rparen, s2, TokenView::Rparen) == advance(s2));
    assert(parse_parenthesized_expression_spec(TokenView::Lparen, s0) == parsed(e, tk3, s3));
}

/// `expression ;`
proof fn lemma_parse_expression_statement_form(
    tk0: TokenView,
    s0: Seq<u8>,
    e: ExpressionView,
    s1: Seq<u8>,
    tk2: TokenView,
    s2: Seq<u8>,
)
    requires
        opens_primary(tk0),
        parse_expression_spec(tk0, s0) == parsed(e, TokenView::Semi, s1),
        advance(s1) == stepped(tk2, s2),
    ensures
        parse_statement_spec(tk0, s0) == parsed(StatementView::Exp(e), tk2, s2),
{
    assert(expect(TokenView::Semi, s1, TokenView::Semi) == advance(s1));
    assert(parse_expression_statement_spec(tk0, s0) == parsed(StatementView::Exp(e), tk2, s2));
}

/// `print expression ;`
proof fn lemma_parse_print_form(
    s0: Seq<u8>,
    tk1: TokenView,
    s1: Seq<u8>,
    e: ExpressionView,
    s2: Seq<u8>,
    tk3: TokenView,
    s3: Seq<u8>,
)
    requires
        advance(s0) == stepped(tk1, s1),
        parse_expression_spec(tk1, s1) == parsed(e, TokenView::Semi, s2),
        advance(s2) == stepped(tk3, s3),
    ensures
        parse_statement_spec(TokenView::Print, s0) == parsed(StatementView::Print(e), tk3, s3),
{
    lemma_advance_progress(TokenView::Print, s0);
    assert(expect(TokenView::Print, s0, TokenView::Print) == advance(s0));
    assert(expect(TokenView::Semi, s2, TokenView::Semi) == advance(s2));
    assert(parse_print_statement_spec(TokenView::Print, s0) == parsed(
        StatementView::Print(e),
        tk3,
        s3,
    ));
}

/// `{ statement* }`
proof fn lemma_parse_block_form(
    s0: Seq<u8>,
    tk1: TokenView,
    s1: Seq<u8>,
    stmts: Seq<StatementView>,
    s2: Seq<u8>,
    tk3: TokenView,
    s3: Seq<u8>,
)
    requires
        advance(s0) == stepped(tk1, s1),
        parse_repetition_spec(tk1, s1) == parsed(stmts, TokenView::Rbrace, s2),
        advance(s2) == stepped(tk3, s3),
    ensures
        parse_block_statement_spec(TokenView::Lbrace, s0) == parsed(
            StatementView::Block(stmts),
            tk3,
            s3,
        ),
        parse_statement_spec(TokenView::Lbrace, s0) == parsed(StatementView::Block(stmts), tk3, s3),
{
    lemma_advance_progress(TokenView::Lbrace, s0);
    assert(expect(TokenView::Lbrace, s0, TokenView::Lbrace) == advance(s0));
    assert(expect(TokenView::Rbrace, s2, TokenView::Rbrace) == advance(s2));
}

/// `( expression ) block`
proof fn lemma_parse_guarded_form(
    s0: Seq<u8>,
    tk1: TokenView,
    s1: Seq<u8>,
    g: ExpressionView,
    s2: Seq<u8>,
    s3: Seq<u8>,
    body: StatementView,
    tk4: TokenView,
    s4: Seq<u8>,
)
    requires
        advance(s0) == stepped(tk1, s1),
        parse_expression_spec(tk1, s1) == parsed(g, TokenView::Rparen, s2),
        advance(s2) == stepped(TokenView::Lbrace, s3),
        parse_block_statement_spec(TokenView::Lbrace, s3) == parsed(body, tk4, s4),
    ensures
        parse_guarded_block_spec(TokenView::Lparen, s0) == parsed((g, body), tk4, s4),
{
    lemma_advance_progress(TokenView::Lparen, s0);
    lemma_expression_progress(tk1, s1);
    lemma_advance_progress(TokenView::Rparen, s2);
    assert(expect(TokenView::Lparen, s0, TokenView::Lparen) == advance(s0));
    assert(expect(TokenView::Rparen, s2, TokenView::Rparen) == advance(s2));
}

/// `while ( expression ) block`
proof fn lemma_parse_while_form(
    s0: Seq<u8>,
    s1: Seq<u8>,
    g: ExpressionView,
    body: StatementView,
    tk: TokenView,
    s: Seq<u8>,
)
    requires
        advance(s0) == stepped(TokenView::Lparen, s1),
        parse_guarded_block_spec(TokenView::Lparen, s1) == parsed((g, body), tk, s),
    ensures
        parse_statement_spec(TokenView::While, s0) == parsed(
            StatementView::While(g, Box::new(body)),
            tk,
            s,
        ),
{
    lemma_advance_progress(TokenView::While, s0);
    assert(expect(TokenView::While, s0, TokenView::While) == advance(s0));
    assert(parse_while_statement_spec(TokenView::While, s0) == parsed(
        StatementView::While(g, Box::new(body)),
        tk,
        s,
    ));
}

/// `if ( expression ) block else block`
proof fn lemma_parse_if_form(
    s0: Seq<u8>,
    s1: Seq<u8>,
    g: ExpressionView,
    th: StatementView,
    s2: Seq<u8>,
    tk3: TokenView,
    s3: Seq<u8>,
    el: StatementView,
    tk4: TokenView,
    s4: Seq<u8>,
)
    requires
        advance(s0) == stepped(TokenView::Lparen, s1),
        parse_guarded_block_spec(TokenView::Lparen, s1) == parsed((g, th), TokenView::Else, s2),
        advance(s2) == stepped(tk3, s3),
        parse_block_statement_spec(tk3, s3) == parsed(el, tk4, s4),
    ensures
        parse_statement_spec(TokenView::If, s0) == parsed(
            StatementView::If(g, Box::new(th), Box::new(el)),
            tk4,
            s4,
        ),
{
    lemma_advance_progress(TokenView::If, s0);
    lemma_statement_progress(TokenView::Lparen, s1);
    lemma_advance_progress(TokenView::Else, s2);
    assert(expect(TokenView::If, s0, TokenView::If) == advance(s0));
    assert(parse_else_spec(TokenView::Else, s2) == parsed(el, tk4, s4));
    assert(parse_if_statement_spec(TokenView::If, s0) == parsed(
        StatementView::If(g, Box::new(th), Box::new(el)),
        tk4,
        s4,
    ));
}

/// One statement, then the statements behind it.
proof fn lemma_parse_repetition_step(
    tk0: TokenView,
    s0: Seq<u8>,
    st: StatementView,
    tk1: TokenView,
    s1: Seq<u8>,
    rest: Seq<StatementView>,
    tk2: TokenView,
    s2: Seq<u8>,
)
    requires
        starts_statement(tk0),
        parse_statement_spec(tk0, s0) == parsed(st, tk1, s1),
        parse_repetition_spec(tk1, s1) == parsed(rest, tk2, s2),
    ensures
        parse_repetition_spec(tk0, s0) == parsed(seq![st] + rest, tk2, s2),
{
    lemma_statement_progress(tk0, s0);
}

/// A prefix expression, read from the state `(tk0, s0)` up to `(tk, s)`.
#[verifier::opaque]
pub open spec fn unary_reads(
    tk0: TokenView,
    s0: Seq<u8>,
    e: ExpressionView,
    tk: TokenView,
    s: Seq<u8>,
) -> bool {
    parse_unary_expression_spec(tk0, s0) == parsed(e, tk, s)
}

/// An assignment expression, read from the state `(tk0, s0)` up to `(tk, s)`.
#[verifier::opaque]
pub open spec fn assignment_reads(
    tk0: TokenView,
    s0: Seq<u8>,
    e: ExpressionView,
    tk: TokenView,
    s: Seq<u8>,
) -> bool {
    parse_assignment_expression_spec(tk0, s0) == parsed(e, tk, s)
}

/// An expression, read from the state `(tk0, s0)` up to `(tk, s)`.
#[verifier::opaque]
pub open spec fn expression_reads(
    tk0: TokenView,
    s0: Seq<u8>,
    e: ExpressionView,
    tk: TokenView,
    s: Seq<u8>,
) -> bool {
    parse_expression_spec(tk0, s0) == parsed(e, tk, s)
}

/// A statement, read from the state `(tk0, s0)` up to `(tk, s)`; a block is
/// read as a block as well.
#[verifier::opaque]
pub open spec fn statement_reads(
    tk0: TokenView,
    s0: Seq<u8>,
    st: StatementView,
    tk: TokenView,
    s: Seq<u8>,
) -> bool {
    &&& starts_statement(tk0)
    &&& parse_statement_spec(tk0, s0) == parsed(st, tk, s)
    &&& st is Block ==> tk0 == TokenView::Lbrace && parse_block_statement_spec(tk0, s0)
        == parsed(st, tk, s)
}

/// A repetition of statements, read from the state `(tk0, s0)` up to `(tk, s)`.
#[verifier::opaque]
pub open spec fn statements_read(
    tk0: TokenView,
    s0: Seq<u8>,
    stmts: Seq<StatementView>,
    tk: TokenView,
    s: Seq<u8>,
) -> bool {
    parse_repetition_spec(tk0, s0) == parsed(stmts, tk, s)
}

/// A guard in parentheses and a block, read from the state `(tk0, s0)` up
/// to `(tk, s)`.
#[verifier::opaque]
pub open spec fn guarded_reads(
    tk0: TokenView,
    s0: Seq<u8>,
    g: ExpressionView,
    body: StatementView,
    tk: TokenView,
    s: Seq<u8>,
) -> bool {
    parse_guarded_block_spec(tk0, s0) == parsed((g, body), tk, s)
}

/// Whether `tk` is one of the two tokens that the pretty-printer writes
/// behind a whole expression.
pub open spec fn closes_expression(tk: TokenView) -> bool {
    tk == TokenView::Rparen || tk == TokenView::Semi
}

/// A literal or an identifier: one token.
pub proof fn lemma_form_atom(
    tk0: TokenView,
    s0: Seq<u8>,
    e: ExpressionView,
    tk1: TokenView,
    s1: Seq<u8>,
)
    requires
        atom(tk0) == Some(e),
        advance(s0) == stepped(tk1, s1),
    ensures
        unary_reads(tk0, s0, e, tk1, s1),
{
    reveal(unary_reads);
    assert(prefix_operator(tk0) is None);
    assert(tk0 != TokenView::Lparen);
    assert(parse_primary_expression_spec(tk0, s0) == parsed(e, tk1, s1));
}

/// `( expression )`
pub proof fn lemma_form_parenthesized(
    s0: Seq<u8>,
    tk1: TokenView,
    s1: Seq<u8>,
    e: ExpressionView,
    s2: Seq<u8>,
    tk3: TokenView,
    s3: Seq<u8>,
)
    requires
        advance(s0) == stepped(tk1, s1),
        expression_reads(tk1, s1, e, TokenView::Rparen, s2),
        advance(s2) == stepped(tk3, s3),
    ensures
        unary_reads(TokenView::Lparen, s0, e, tk3, s3),
{
    reveal(unary_reads);
    reveal(expression_reads);
    lemma_parse_parenthesized_form(s0, tk1, s1, e, s2, tk3, s3);
}

/// `operand operator operand`, in front of a token that closes an expression.
pub proof fn lemma_form_binary(
    opr: BinaryOperator,
    tk0: TokenView,
    s0: Seq<u8>,
    l: ExpressionView,
    s1: Seq<u8>,
    tk2: TokenView,
    s2: Seq<u8>,
    r: ExpressionView,
    tk3: TokenView,
    s3: Seq<u8>,
)
    requires
        unary_reads(tk0, s0, l, binary_token(opr), s1),
        advance(s1) == stepped(tk2, s2),
        unary_reads(tk2, s2, r, tk3, s3),
        closes_expression(tk3),
    ensures
        expression_reads(
            tk0,
            s0,
            ExpressionView::Binary(opr, Box::new(l), Box::new(r)),
            tk3,
            s3,
        ),
{
    reveal(unary_reads);
    reveal(expression_reads);
    lemma_parse_binary_form(opr, tk0, s0, l, s1, tk2, s2, r, tk3, s3);
}

/// `operator operand`, in front of a token that closes an expression.
pub proof fn lemma_form_prefix(
    opr: UnaryOperator,
    tk0: TokenView,
    s0: Seq<u8>,
    tk1: TokenView,
    s1: Seq<u8>,
    x: ExpressionView,
    tk2: TokenView,
    s2: Seq<u8>,
)
    requires
        prefix_operator(tk0) == Some(opr),
        advance(s0) == stepped(tk1, s1),
        unary_reads(tk1, s1, x, tk2, s2),
        closes_expression(tk2),
    ensures
        expression_reads(tk0, s0, ExpressionView::Unary(opr, Box::new(x)), tk2, s2),
{
    reveal(unary_reads);
    reveal(expression_reads);
    lemma_parse_prefix_form(opr, tk0, s0, tk1, s1, x, tk2, s2);
}

/// `guard ? branch : branch`, in front of a token that closes an expression.
pub proof fn lemma_form_conditional(
    tk0: TokenView,
    s0: Seq<u8>,
    g: ExpressionView,
    s1: Seq<u8>,
    tk2: TokenView,
    s2: Seq<u8>,
    a: ExpressionView,
    s3: Seq<u8>,
    tk4: TokenView,
    s4: Seq<u8>,
    b: ExpressionView,
    tk5: TokenView,
    s5: Seq<u8>,
)
    requires
        unary_reads(tk0, s0, g, TokenView::Question, s1),
        advance(s1) == stepped(tk2, s2),
        unary_reads(tk2, s2, a, TokenView::Colon, s3),
        advance(s3) == stepped(tk4, s4),
        unary_reads(tk4, s4, b, tk5, s5),
        closes_expression(tk5),
    ensures
        expression_reads(
            tk0,
            s0,
            ExpressionView::Cond(Box::new(g), Box::new(a), Box::new(b)),
            tk5,
            s5,
        ),
{
    reveal(unary_reads);
    reveal(expression_reads);
    lemma_parse_conditional_form(tk0, s0, g, s1, tk2, s2, a, s3, tk4, s4, b, tk5, s5);
}

/// `identifier = value`, in front of a token that closes an expression.
pub proof fn lemma_form_assignment(
    tk0: TokenView,
    s0: Seq<u8>,
    name: Seq<char>,
    s1: Seq<u8>,
    tk2: TokenView,
    s2: Seq<u8>,
    r: ExpressionView,
    tk3: TokenView,
    s3: Seq<u8>,
)
    requires
        unary_reads(tk0, s0, ExpressionView::Id(name), TokenView::Assign, s1),
        advance(s1) == stepped(tk2, s2),
        unary_reads(tk2, s2, r, tk3, s3),
        closes_expression(tk3),
    ensures
        expression_reads(
            tk0,
            s0,
            ExpressionView::Assign(Box::new(ExpressionView::Id(name)), Box::new(r)),
            tk3,
            s3,
        ),
{
    reveal(unary_reads);
    reveal(expression_reads);
    lemma_parse_assignment_form(tk0, s0, name, s1, tk2, s2, r, tk3, s3);
}

/// A prefix expression in front of a token that closes an expression is an
/// expression.
pub proof fn lemma_form_whole(
    tk0: TokenView,
    s0: Seq<u8>,
    e: ExpressionView,
    tk: TokenView,
    s: Seq<u8>,
)
    requires
        unary_reads(tk0, s0, e, tk, s),
        closes_expression(tk),
    ensures
        expression_reads(tk0, s0, e, tk, s),
{
    reveal(unary_reads);
    reveal(expression_reads);
    lemma_expression_of_unary(tk0, s0, e, tk, s);
}

/// A prefix expression in front of `,` or `;` is an assignment expression.
pub proof fn lemma_form_initializer(
    tk0: TokenView,
    s0: Seq<u8>,
    e: ExpressionView,
    tk: TokenView,
    s: Seq<u8>,
)
    requires
        unary_reads(tk0, s0, e, tk, s),
        tk == TokenView::Comma || tk == TokenView::Semi,
    ensures
        assignment_reads(tk0, s0, e, tk, s),
{
    reveal(unary_reads);
    reveal(assignment_reads);
    lemma_expression_of_unary(tk0, s0, e, tk, s);
}

/// `expression ;`
pub proof fn lemma_form_expression_statement(
    tk0: TokenView,
    s0: Seq<u8>,
    e: ExpressionView,
    s1: Seq<u8>,
    tk2: TokenView,
    s2: Seq<u8>,
)
    requires
        opens_primary(tk0),
        expression_reads(tk0, s0, e, TokenView::Semi, s1),
        advance(s1) == stepped(tk2, s2),
    ensures
        statement_reads(tk0, s0, StatementView::Exp(e), tk2, s2),
{
    reveal(expression_reads);
    reveal(statement_reads);
    lemma_parse_expression_statement_form(tk0, s0, e, s1, tk2, s2);
}

/// `print expression ;`
pub proof fn lemma_form_print(
    s0: Seq<u8>,
    tk1: TokenView,
    s1: Seq<u8>,
    e: ExpressionView,
    s2: Seq<u8>,
    tk3: TokenView,
    s3: Seq<u8>,
)
    requires
        advance(s0) == stepped(tk1, s1),
        expression_reads(tk1, s1, e, TokenView::Semi, s2),
        advance(s2) == stepped(tk3, s3),
    ensures
        statement_reads(TokenView::Print, s0, StatementView::Print(e), tk3, s3),
{
    reveal(expression_reads);
    reveal(statement_reads);
    lemma_parse_print_form(s0, tk1, s1, e, s2, tk3, s3);
}

/// `{ statement* }`
pub proof fn lemma_form_block(
    s0: Seq<u8>,
    tk1: TokenView,
    s1: Seq<u8>,
    stmts: Seq<StatementView>,
    s2: Seq<u8>,
    tk3: TokenView,
    s3: Seq<u8>,
)
    requires
        advance(s0) == stepped(tk1, s1),
        statements_read(tk1, s1, stmts, TokenView::Rbrace, s2),
        advance(s2) == stepped(tk3, s3),
    ensures
        statement_reads(TokenView::Lbrace, s0, StatementView::Block(stmts), tk3, s3),
{
    reveal(statements_read);
    reveal(statement_reads);
    lemma_parse_block_form(s0, tk1, s1, stmts, s2, tk3, s3);
}

/// `( expression ) block`
pub proof fn lemma_form_guarded(
    s0: Seq<u8>,
    tk1: TokenView,
    s1: Seq<u8>,
    g: ExpressionView,
    s2: Seq<u8>,
    tk3: TokenView,
    s3: Seq<u8>,
    body: StatementView,
    tk4: TokenView,
    s4: Seq<u8>,
)
    requires
        advance(s0) == stepped(tk1, s1),
        expression_reads(tk1, s1, g, TokenView::Rparen, s2),
        advance(s2) == stepped(tk3, s3),
        body is Block,
        statement_reads(tk3, s3, body, tk4, s4),
    ensures
        guarded_reads(TokenView::Lparen, s0, g, body, tk4, s4),
{
    reveal(expression_reads);
    reveal(statement_reads);
    reveal(guarded_reads);
    lemma_parse_guarded_form(s0, tk1, s1, g, s2, s3, body, tk4, s4);
}

/// `while ( expression ) block`
pub proof fn lemma_form_while(
    s0: Seq<u8>,
    s1: Seq<u8>,
    g: ExpressionView,
    body: StatementView,
    tk: TokenView,
    s: Seq<u8>,
)
    requires
        advance(s0) == stepped(TokenView::Lparen, s1),
        guarded_reads(TokenView::Lparen, s1, g, body, tk, s),
    ensures
        statement_reads(TokenView::While, s0, StatementView::While(g, Box::new(body)), tk, s),
{
    reveal(guarded_reads);
    reveal(statement_reads);
    lemma_parse_while_form(s0, s1, g, body, tk, s);
}

/// `if ( expression ) block else block`
pub proof fn lemma_form_if(
    s0: Seq<u8>,
    s1: Seq<u8>,
    g: ExpressionView,
    th: StatementView,
    s2: Seq<u8>,
    tk3: TokenView,
    s3: Seq<u8>,
    el: StatementView,
    tk4: TokenView,
    s4: Seq<u8>,
)
    requires
        advance(s0) == stepped(TokenView::Lparen, s1),
        guarded_reads(TokenView::Lparen, s1, g, th, TokenView::Else, s2),
        advance(s2) == stepped(tk3, s3),
        el is Block,
        statement_reads(tk3, s3, el, tk4, s4),
    ensures
        statement_reads(
            TokenView::If,
            s0,
            StatementView::If(g, Box::new(th), Box::new(el)),
            tk4,
            s4,
        ),
{
    reveal(guarded_reads);
    reveal(statement_reads);
    lemma_parse_if_form(s0, s1, g, th, s2, tk3, s3, el, tk4, s4);
}

/// No statement where none can start.
pub proof fn lemma_form_no_statements(tk: TokenView, s: Seq<u8>)
    requires
        !starts_statement(tk),
    ensures
        statements_read(tk, s, Seq::empty(), tk, s),
{
    reveal(statements_read);
}

/// One statement, then the statements behind it.
pub proof fn lemma_form_statements(
    tk0: TokenView,
    s0: Seq<u8>,
    st: StatementView,
    tk1: TokenView,
    s1: Seq<u8>,
    rest: Seq<StatementView>,
    tk2: TokenView,
    s2: Seq<u8>,
)
    requires
        statement_reads(tk0, s0, st, tk1, s1),
        statements_read(tk1, s1, rest, tk2, s2),
    ensures
        statements_read(tk0, s0, seq![st] + rest, tk2, s2),
{
    reveal(statement_reads);
    reveal(statements_read);
    lemma_parse_repetition_step(tk0, s0, st, tk1, s1, rest, tk2, s2);
}

/// A declaration, read from the state `(tk0, s0)` up to `(tk, s)`.
#[verifier::opaque]
pub open spec fn declaration_reads(
    tk0: TokenView,
    s0: Seq<u8>,
    d: DeclarationView,
    tk: TokenView,
    s: Seq<u8>,
) -> bool {
    parse_variable_element_spec(tk0, s0) == parsed(d, tk, s)
}

/// The declarations behind the first one of a list, read from the state
/// `(tk0, s0)` up to `(tk, s)`.
#[verifier::opaque]
pub open spec fn more_declarations_read(
    tk0: TokenView,
    s0: Seq<u8>,
    decls: Seq<DeclarationView>,
    tk: TokenView,
    s: Seq<u8>,
) -> bool {
    parse_comma_repetition_spec(tk0, s0) == parsed(decls, tk, s)
}

/// A top-level element, read from the state `(tk0, s0)` up to `(tk, s)`.
#[verifier::opaque]
pub open spec fn source_element_reads(
    tk0: TokenView,
    s0: Seq<u8>,
    e: SourceElementView,
    tk: TokenView,
    s: Seq<u8>,
) -> bool {
    starts_source_element(tk0) && parse_source_element_spec(tk0, s0) == parsed(e, tk, s)
}

/// Top-level elements, read from the state `(tk0, s0)` up to `(tk, s)`.
#[verifier::opaque]
pub open spec fn source_elements_read(
    tk0: TokenView,
    s0: Seq<u8>,
    elems: Seq<SourceElementView>,
    tk: TokenView,
    s: Seq<u8>,
) -> bool {
    parse_source_elements_spec(tk0, s0) == parsed(elems, tk, s)
}

/// `identifier`, with no `=` behind it.
pub proof fn lemma_form_declaration_plain(name: Seq<char>, s0: Seq<u8>, tk1: TokenView, s1: Seq<u8>)
    requires
        advance(s0) == stepped(tk1, s1),
        tk1 != TokenView::Assign,
    ensures
        declaration_reads(TokenView::Id(name), s0, DeclarationView::Id(name), tk1, s1),
{
    reveal(declaration_reads);
}

/// `identifier = value`
pub proof fn lemma_form_declaration_init(
    name: Seq<char>,
    s0: Seq<u8>,
    s1: Seq<u8>,
    tk2: TokenView,
    s2: Seq<u8>,
    e: ExpressionView,
    tk3: TokenView,
    s3: Seq<u8>,
)
    requires
        advance(s0) == stepped(TokenView::Assign, s1),
        advance(s1) == stepped(tk2, s2),
        assignment_reads(tk2, s2, e, tk3, s3),
    ensures
        declaration_reads(TokenView::Id(name), s0, DeclarationView::Init(name, e), tk3, s3),
{
    reveal(declaration_reads);
    reveal(assignment_reads);
}

/// No more declarations where no comma stands.
pub proof fn lemma_form_no_more_declarations(tk: TokenView, s: Seq<u8>)
    requires
        tk != TokenView::Comma,
    ensures
        more_declarations_read(tk, s, Seq::empty(), tk, s),
{
    reveal(more_declarations_read);
}

/// `, declaration`, then the declarations behind it.
pub proof fn lemma_form_more_declarations(
    s0: Seq<u8>,
    tk1: TokenView,
    s1: Seq<u8>,
    d: DeclarationView,
    tk2: TokenView,
    s2: Seq<u8>,
    rest: Seq<DeclarationView>,
    tk3: TokenView,
    s3: Seq<u8>,
)
    requires
        advance(s0) == stepped(tk1, s1),
        declaration_reads(tk1, s1, d, tk2, s2),
        more_declarations_read(tk2, s2, rest, tk3, s3),
    ensures
        more_declarations_read(TokenView::Comma, s0, seq![d] + rest, tk3, s3),
{
    reveal(declaration_reads);
    reveal(more_declarations_read);
    lemma_advance_progress(TokenView::Comma, s0);
    lemma_variable_element_progress(tk1, s1);
}

/// `var declaration (, declaration)* ;`
pub proof fn lemma_form_var(
    s0: Seq<u8>,
    tk1: TokenView,
    s1: Seq<u8>,
    d: DeclarationView,
    tk2: TokenView,
    s2: Seq<u8>,
    rest: Seq<DeclarationView>,
    s3: Seq<u8>,
    tk4: TokenView,
    s4: Seq<u8>,
)
    requires
        advance(s0) == stepped(tk1, s1),
        declaration_reads(tk1, s1, d, tk2, s2),
        more_declarations_read(tk2, s2, rest, TokenView::Semi, s3),
        advance(s3) == stepped(tk4, s4),
    ensures
        source_element_reads(
            TokenView::Var,
            s0,
            SourceElementView::VarDecl(seq![d] + rest),
            tk4,
            s4,
        ),
{
    reveal(declaration_reads);
    reveal(more_declarations_read);
    reveal(source_element_reads);
    assert(expect(TokenView::Var, s0, TokenView::Var) == advance(s0));
    assert(expect(TokenView::Semi, s3, TokenView::Semi) == advance(s3));
    assert(parse_variable_elements_spec(TokenView::Var, s0) == parsed(seq![d] + rest, tk4, s4));
}

/// A statement at the top level.
pub proof fn lemma_form_statement_element(
    tk0: TokenView,
    s0: Seq<u8>,
    st: StatementView,
    tk: TokenView,
    s: Seq<u8>,
)
    requires
        statement_reads(tk0, s0, st, tk, s),
    ensures
        source_element_reads(tk0, s0, SourceElementView::Stmt(st), tk, s),
{
    reveal(statement_reads);
    reveal(source_element_reads);
}

/// No top-level element where none can start.
pub proof fn lemma_form_no_elements(tk: TokenView, s: Seq<u8>)
    requires
        !starts_source_element(tk),
    ensures
        source_elements_read(tk, s, Seq::empty(), tk, s),
{
    reveal(source_elements_read);
}

/// One top-level element, then the elements behind it.
pub proof fn lemma_form_elements(
    tk0: TokenView,
    s0: Seq<u8>,
    e: SourceElementView,
    tk1: TokenView,
    s1: Seq<u8>,
    rest: Seq<SourceElementView>,
    tk2: TokenView,
    s2: Seq<u8>,
)
    requires
        source_element_reads(tk0, s0, e, tk1, s1),
        source_elements_read(tk1, s1, rest, tk2, s2),
    ensures
        source_elements_read(tk0, s0, seq![e] + rest, tk2, s2),
{
    reveal(source_element_reads);
    reveal(source_elements_read);
    lemma_source_element_progress(tk0, s0);
}

/// Top-level elements up to the end of the input are a program.
pub proof fn lemma_form_program(
    source: Seq<u8>,
    tk0: TokenView,
    s0: Seq<u8>,
    elems: Seq<SourceElementView>,
    s1: Seq<u8>,
)
    requires
        advance(source) == stepped(tk0, s0),
        source_elements_read(tk0, s0, elems, TokenView::Eof, s1),
        advance(s1) is Ok,
    ensures
        parse_spec(source) == Ok::<ProgramView, JsishErrorView>(ProgramView { elements: elems }),
{
    reveal(source_elements_read);
    assert(expect(TokenView::Eof, s1, TokenView::Eof) == advance(s1));
}

/// The error of an expression that starts with a token with which none can
/// start.
pub open spec fn no_value(tk: TokenView, s: Seq<u8>) -> Parsed<ExpressionView> {
    Err((JsishErrorView::SyntaxError { expected: ExpectedView::Value, found: tk }, s))
}

/// An operand and a chain of any level below the comma fail at a token with
/// which no expression can start.
proof fn lemma_unopened_operand(level: BinaryLevel, tk: TokenView, s: Seq<u8>)
    requires
        !starts_expression(tk),
        level != BinaryLevel::Comma,
    ensures
        parse_operand_spec(level, tk, s) == no_value(tk, s),
        parse_binary_expression_spec(level, tk, s) == no_value(tk, s),
    decreases level_height(level),
{
    match level {
        BinaryLevel::Multiplicative => {
            assert(prefix_operator(tk) is None);
            assert(atom(tk) is None);
            assert(tk != TokenView::Lparen);
            assert(parse_primary_expression_spec(tk, s) == no_value(tk, s));
            assert(parse_unary_expression_spec(tk, s) == no_value(tk, s));
        },
        BinaryLevel::Additive => lemma_unopened_operand(BinaryLevel::Multiplicative, tk, s),
        BinaryLevel::Relational => lemma_unopened_operand(BinaryLevel::Additive, tk, s),
        BinaryLevel::Equality => lemma_unopened_operand(BinaryLevel::Relational, tk, s),
        BinaryLevel::And => lemma_unopened_operand(BinaryLevel::Equality, tk, s),
        _ => lemma_unopened_operand(BinaryLevel::And, tk, s),
    }
}

/// The first sets are in step with the grammar: at a token with which no
/// expression can start, every expression production fails with that token
/// as what was found in place of a value; and at a token with which no
/// statement can start, a statement fails as well.
pub proof fn lemma_first_sets(tk: TokenView, s: Seq<u8>)
    ensures
        !starts_expression(tk) ==> parse_expression_spec(tk, s) == no_value(tk, s)
            && parse_assignment_expression_spec(tk, s) == no_value(tk, s)
            && parse_conditional_expression_spec(tk, s) == no_value(tk, s)
            && parse_unary_expression_spec(tk, s) == no_value(tk, s)
            && parse_primary_expression_spec(tk, s) == no_value(tk, s),
        !starts_statement(tk) ==> parse_statement_spec(tk, s) == Err::<
            (StatementView, TokenView, Seq<u8>),
            (JsishErrorView, Seq<u8>),
        >((JsishErrorView::ExpectedStatement, s)),
        !starts_source_element(tk) ==> parse_source_element_spec(tk, s) is Err,
{
    if !starts_expression(tk) {
        assert(prefix_operator(tk) is None);
        assert(atom(tk) is None);
        assert(tk != TokenView::Lparen);
        assert(parse_primary_expression_spec(tk, s) == no_value(tk, s));
        assert(parse_unary_expression_spec(tk, s) == no_value(tk, s));
        lemma_unopened_operand(BinaryLevel::Or, tk, s);
        assert(parse_conditional_expression_spec(tk, s) == no_value(tk, s));
        assert(parse_assignment_expression_spec(tk, s) == no_value(tk, s));
        assert(parse_operand_spec(BinaryLevel::Comma, tk, s) == no_value(tk, s));
        assert(parse_binary_expression_spec(BinaryLevel::Comma, tk, s) == no_value(tk, s));
    }
}

} // verus!
