//! Recursive-descent parsing with one token of lookahead.
//!
//! Every production takes the current token and the input behind it, and
//! gives the tree it read together with the new current token and the input
//! behind that one. The grammar is stated twice: as specification functions
//! over token views and byte sequences, and as executable functions over
//! tokens and a stream, each proved to compute what its specification says.
//!
//! Every production that succeeds moves forward in the input
//! (`lemma_parse_progress` and its companions). The specification functions
//! test this at each step, which makes their recursion well-founded; the
//! test never fails.
use vstd::prelude::*;
use crate::ast::{
    declaration_views, lemma_block_view, source_element_views, statement_views, BinaryOperator,
    Declaration, DeclInitData, DeclarationView, ExpAssignData, ExpBinaryData, ExpCondData,
    ExpUnaryData, Expression, ExpressionView, Program, ProgramView, SourceElement,
    SourceElementView, StIfData, StWhileData, Statement, StatementView, UnaryOperator,
};
use crate::tokenizer::{lemma_lex_progress, lex, next_token, Token, TokenView};
use crate::types::{ByteStream, Expected, ExpectedView, JsishError, JsishErrorView, JsishResult};

verus! {

/// What a production gives: the tree it read, the new current token and the
/// input behind it; or the first error and the input as it was left when the
/// error was met.
pub type Parsed<T> = Result<(T, TokenView, Seq<u8>), (JsishErrorView, Seq<u8>)>;

/// What a step over one token gives: the new current token and the input
/// behind it; or an error and the input as it was left.
pub type Stepped = Result<(TokenView, Seq<u8>), (JsishErrorView, Seq<u8>)>;

/// The result of a production that read `x` and stands at the token `tk`
/// with the input `s` behind it.
pub open spec fn parsed<T>(x: T, tk: TokenView, s: Seq<u8>) -> Parsed<T> {
    Ok((x, tk, s))
}

/// The result of a step that stands at the token `tk` with the input `s`
/// behind it.
pub open spec fn stepped(tk: TokenView, s: Seq<u8>) -> Stepped {
    Ok((tk, s))
}

/// How much there is left to read: the bytes behind the current token, and
/// the current token itself unless it is the end of the input.
pub open spec fn measure(tk: TokenView, s: Seq<u8>) -> nat {
    s.len() + if tk == TokenView::Eof {
        0nat
    } else {
        1nat
    }
}

/// Whether the state `(tk1, s1)` lies further on in the input than `(tk, s)`.
pub open spec fn moved(tk1: TokenView, s1: Seq<u8>, tk: TokenView, s: Seq<u8>) -> bool {
    measure(tk1, s1) < measure(tk, s)
}

/// Reads the next token from `s`.
pub open spec fn advance(s: Seq<u8>) -> Stepped {
    match lex(s).0 {
        Ok(t) => Ok((t, lex(s).1)),
        Err(e) => Err((e, lex(s).1)),
    }
}

/// Steps over the current token if it is `expected`; a syntax error otherwise.
pub open spec fn expect(tk: TokenView, s: Seq<u8>, expected: TokenView) -> Stepped {
    if tk == expected {
        advance(s)
    } else {
        Err((JsishErrorView::SyntaxError { expected: ExpectedView::Token(expected), found: tk }, s))
    }
}

/// Whether an expression can start with `tk`.
pub open spec fn starts_expression(tk: TokenView) -> bool {
    ||| tk is Lparen
    ||| tk is Id
    ||| tk is Num
    ||| tk is Str
    ||| tk is True
    ||| tk is False
    ||| tk is Undefined
    ||| tk is Not
    ||| tk is Typeof
    ||| tk is Minus
}

/// Whether a statement can start with `tk`.
pub open spec fn starts_statement(tk: TokenView) -> bool {
    ||| tk is Print
    ||| tk is Lbrace
    ||| tk is If
    ||| tk is While
    ||| starts_expression(tk)
}

/// Whether a top-level element can start with `tk`.
pub open spec fn starts_source_element(tk: TokenView) -> bool {
    starts_statement(tk) || tk is Var
}

/// The levels of left-associative binary operators, from the loosest to the
/// tightest.
#[derive(Clone, Copy, Debug, PartialEq, Eq, Structural)]
pub enum BinaryLevel {
    Comma,
    Or,
    And,
    Equality,
    Relational,
    Additive,
    Multiplicative,
}

/// The operator that `tk` spells at `level`, if it spells one there.
pub open spec fn level_operator(level: BinaryLevel, tk: TokenView) -> Option<BinaryOperator> {
    match (level, tk) {
        (BinaryLevel::Comma, TokenView::Comma) => Some(BinaryOperator::BopComma),
        (BinaryLevel::Or, TokenView::Or) => Some(BinaryOperator::BopOr),
        (BinaryLevel::And, TokenView::And) => Some(BinaryOperator::BopAnd),
        (BinaryLevel::Equality, TokenView::Ne) => Some(BinaryOperator::BopNe),
        (BinaryLevel::Equality, TokenView::Eq) => Some(BinaryOperator::BopEq),
        (BinaryLevel::Relational, TokenView::Le) => Some(BinaryOperator::BopLe),
        (BinaryLevel::Relational, TokenView::Lt) => Some(BinaryOperator::BopLt),
        (BinaryLevel::Relational, TokenView::Gt) => Some(BinaryOperator::BopGt),
        (BinaryLevel::Relational, TokenView::Ge) => Some(BinaryOperator::BopGe),
        (BinaryLevel::Additive, TokenView::Plus) => Some(BinaryOperator::BopPlus),
        (BinaryLevel::Additive, TokenView::Minus) => Some(BinaryOperator::BopMinus),
        (BinaryLevel::Multiplicative, TokenView::Times) => Some(BinaryOperator::BopTimes),
        (BinaryLevel::Multiplicative, TokenView::Divide) => Some(BinaryOperator::BopDivide),
        (BinaryLevel::Multiplicative, TokenView::Mod) => Some(BinaryOperator::BopMod),
        _ => None,
    }
}

/// The prefix operator that `tk` spells, if it spells one.
pub open spec fn prefix_operator(tk: TokenView) -> Option<UnaryOperator> {
    match tk {
        TokenView::Not => Some(UnaryOperator::UopNot),
        TokenView::Typeof => Some(UnaryOperator::UopTypeof),
        TokenView::Minus => Some(UnaryOperator::UopMinus),
        _ => None,
    }
}

/// The place of a level in the precedence ladder: the tighter, the lower.
pub open spec fn level_height(level: BinaryLevel) -> nat {
    match level {
        BinaryLevel::Multiplicative => 0,
        BinaryLevel::Additive => 1,
        BinaryLevel::Relational => 2,
        BinaryLevel::Equality => 3,
        BinaryLevel::And => 4,
        BinaryLevel::Or => 5,
        BinaryLevel::Comma => 8,
    }
}

/// The literal or identifier that a single token denotes.
pub open spec fn atom(tk: TokenView) -> Option<ExpressionView> {
    match tk {
        TokenView::Id(s) => Some(ExpressionView::Id(s)),
        TokenView::Num(n) => Some(ExpressionView::Num(n)),
        TokenView::True => Some(ExpressionView::True),
        TokenView::False => Some(ExpressionView::False),
        TokenView::Str(s) => Some(ExpressionView::Str(s)),
        TokenView::Undefined => Some(ExpressionView::Undefined),
        _ => None,
    }
}

/// `( expression )`
pub open spec fn parse_parenthesized_expression_spec(tk: TokenView, s: Seq<u8>) -> Parsed<
    ExpressionView,
>
    decreases measure(tk, s), 0nat,
{
    match expect(tk, s, TokenView::Lparen) {
        Err(e) => Err(e),
        Ok((tk1, s1)) => if moved(tk1, s1, tk, s) {
            match parse_expression_spec(tk1, s1) {
                Err(e) => Err(e),
                Ok((exp, tk2, s2)) => match expect(tk2, s2, TokenView::Rparen) {
                    Err(e) => Err(e),
                    Ok((tk3, s3)) => Ok((exp, tk3, s3)),
                },
            }
        } else {
            Err((JsishErrorView::UnexpectedEof, s))
        },
    }
}

/// A literal, an identifier, or a parenthesized expression.
pub open spec fn parse_primary_expression_spec(tk: TokenView, s: Seq<u8>) -> Parsed<
    ExpressionView,
>
    decreases measure(tk, s), 1nat,
{
    if tk == TokenView::Lparen {
        parse_parenthesized_expression_spec(tk, s)
    } else {
        match atom(tk) {
            None => Err(
                (JsishErrorView::SyntaxError { expected: ExpectedView::Value, found: tk }, s),
            ),
            Some(exp) => match advance(s) {
                Err(e) => Err(e),
                Ok((tk1, s1)) => Ok((exp, tk1, s1)),
            },
        }
    }
}

/// Zero or more prefix operators, then a primary expression. The operators
/// nest to the right.
pub open spec fn parse_unary_expression_spec(tk: TokenView, s: Seq<u8>) -> Parsed<ExpressionView>
    decreases measure(tk, s), 2nat,
{
    match prefix_operator(tk) {
        Some(opr) => match advance(s) {
            Err(e) => Err(e),
            Ok((tk1, s1)) => if moved(tk1, s1, tk, s) {
                match parse_unary_expression_spec(tk1, s1) {
                    Err(e) => Err(e),
                    Ok((opnd, tk2, s2)) => Ok(
                        (ExpressionView::Unary(opr, Box::new(opnd)), tk2, s2),
                    ),
                }
            } else {
                Err((JsishErrorView::UnexpectedEof, s))
            },
        },
        None => parse_primary_expression_spec(tk, s),
    }
}

/// An operand of the operators of `level`: an expression of the next
/// tighter level.
pub open spec fn parse_operand_spec(level: BinaryLevel, tk: TokenView, s: Seq<u8>) -> Parsed<
    ExpressionView,
>
    decreases measure(tk, s), 3 + 2 * level_height(level),
{
    match level {
        BinaryLevel::Multiplicative => parse_unary_expression_spec(tk, s),
        BinaryLevel::Additive => parse_binary_expression_spec(BinaryLevel::Multiplicative, tk, s),
        BinaryLevel::Relational => parse_binary_expression_spec(BinaryLevel::Additive, tk, s),
        BinaryLevel::Equality => parse_binary_expression_spec(BinaryLevel::Relational, tk, s),
        BinaryLevel::And => parse_binary_expression_spec(BinaryLevel::Equality, tk, s),
        BinaryLevel::Or => parse_binary_expression_spec(BinaryLevel::And, tk, s),
        BinaryLevel::Comma => parse_assignment_expression_spec(tk, s),
    }
}

/// The operators of `level` and their right operands that follow the left
/// operand `lft`, folded to the left.
pub open spec fn parse_binary_rest_spec(
    level: BinaryLevel,
    lft: ExpressionView,
    tk: TokenView,
    s: Seq<u8>,
) -> Parsed<ExpressionView>
    decreases measure(tk, s), 0nat,
{
    match level_operator(level, tk) {
        None => Ok((lft, tk, s)),
        Some(opr) => match advance(s) {
            Err(e) => Err(e),
            Ok((tk2, s2)) => if moved(tk2, s2, tk, s) {
                match parse_operand_spec(level, tk2, s2) {
                    Err(e) => Err(e),
                    Ok((rht, tk3, s3)) => if moved(tk3, s3, tk, s) {
                        parse_binary_rest_spec(
                            level,
                            ExpressionView::Binary(opr, Box::new(lft), Box::new(rht)),
                            tk3,
                            s3,
                        )
                    } else {
                        Err((JsishErrorView::UnexpectedEof, s))
                    },
                }
            } else {
                Err((JsishErrorView::UnexpectedEof, s))
            },
        },
    }
}

/// One operand, then any number of operators of `level` with their operands:
/// a left-associative chain.
pub open spec fn parse_binary_expression_spec(
    level: BinaryLevel,
    tk: TokenView,
    s: Seq<u8>,
) -> Parsed<ExpressionView>
    decreases measure(tk, s), 4 + 2 * level_height(level),
{
    match parse_operand_spec(level, tk, s) {
        Err(e) => Err(e),
        Ok((lft, tk1, s1)) => if moved(tk1, s1, tk, s) {
            parse_binary_rest_spec(level, lft, tk1, s1)
        } else {
            Err((JsishErrorView::UnexpectedEof, s))
        },
    }
}

/// A logical-or expression, then `? assignment : assignment` if a `?` follows.
pub open spec fn parse_conditional_expression_spec(tk: TokenView, s: Seq<u8>) -> Parsed<
    ExpressionView,
>
    decreases measure(tk, s), 15nat,
{
    match parse_binary_expression_spec(BinaryLevel::Or, tk, s) {
        Err(e) => Err(e),
        Ok((guard, tk1, s1)) => if tk1 == TokenView::Question {
            match advance(s1) {
                Err(e) => Err(e),
                Ok((tk2, s2)) => if moved(tk2, s2, tk, s) {
                    match parse_assignment_expression_spec(tk2, s2) {
                        Err(e) => Err(e),
                        Ok((then_exp, tk3, s3)) => match expect(tk3, s3, TokenView::Colon) {
                            Err(e) => Err(e),
                            Ok((tk4, s4)) => if moved(tk4, s4, tk, s) {
                                match parse_assignment_expression_spec(tk4, s4) {
                                    Err(e) => Err(e),
                                    Ok((else_exp, tk5, s5)) => Ok(
                                        (
                                            ExpressionView::Cond(
                                                Box::new(guard),
                                                Box::new(then_exp),
                                                Box::new(else_exp),
                                            ),
                                            tk5,
                                            s5,
                                        ),
                                    ),
                                }
                            } else {
                                Err((JsishErrorView::UnexpectedEof, s))
                            },
                        },
                    }
                } else {
                    Err((JsishErrorView::UnexpectedEof, s))
                },
            }
        } else {
            Ok((guard, tk1, s1))
        },
    }
}

/// A conditional expression, then `= assignment` if an `=` follows; the left
/// side of an `=` must be a bare identifier.
pub open spec fn parse_assignment_expression_spec(tk: TokenView, s: Seq<u8>) -> Parsed<
    ExpressionView,
>
    decreases measure(tk, s), 16nat,
{
    match parse_conditional_expression_spec(tk, s) {
        Err(e) => Err(e),
        Ok((lhs, tk1, s1)) => if tk1 != TokenView::Assign {
            Ok((lhs, tk1, s1))
        } else if !(lhs is Id) {
            Err((JsishErrorView::InvalidAssignmentTarget, s1))
        } else {
            match advance(s1) {
                Err(e) => Err(e),
                Ok((tk2, s2)) => if moved(tk2, s2, tk, s) {
                    match parse_assignment_expression_spec(tk2, s2) {
                        Err(e) => Err(e),
                        Ok((rhs, tk3, s3)) => Ok(
                            (ExpressionView::Assign(Box::new(lhs), Box::new(rhs)), tk3, s3),
                        ),
                    }
                } else {
                    Err((JsishErrorView::UnexpectedEof, s))
                },
            }
        },
    }
}

/// An expression: assignments joined by commas.
pub open spec fn parse_expression_spec(tk: TokenView, s: Seq<u8>) -> Parsed<ExpressionView>
    decreases measure(tk, s), 21nat,
{
    parse_binary_expression_spec(BinaryLevel::Comma, tk, s)
}

/// Puts the element `first` before the elements that a repetition gave.
pub open spec fn with_first<T>(first: T, rest: Parsed<Seq<T>>) -> Parsed<Seq<T>> {
    match rest {
        Ok((items, tk, s)) => Ok((seq![first] + items, tk, s)),
        Err(e) => Err(e),
    }
}

/// `print expression ;`
pub open spec fn parse_print_statement_spec(tk: TokenView, s: Seq<u8>) -> Parsed<StatementView>
    decreases measure(tk, s), 1nat,
{
    match expect(tk, s, TokenView::Print) {
        Err(e) => Err(e),
        Ok((tk1, s1)) => if moved(tk1, s1, tk, s) {
            match parse_expression_spec(tk1, s1) {
                Err(e) => Err(e),
                Ok((exp, tk2, s2)) => match expect(tk2, s2, TokenView::Semi) {
                    Err(e) => Err(e),
                    Ok((tk3, s3)) => Ok((StatementView::Print(exp), tk3, s3)),
                },
            }
        } else {
            Err((JsishErrorView::UnexpectedEof, s))
        },
    }
}

/// `expression ;`
pub open spec fn parse_expression_statement_spec(tk: TokenView, s: Seq<u8>) -> Parsed<
    StatementView,
>
    decreases measure(tk, s), 22nat,
{
    match parse_expression_spec(tk, s) {
        Err(e) => Err(e),
        Ok((exp, tk1, s1)) => match expect(tk1, s1, TokenView::Semi) {
            Err(e) => Err(e),
            Ok((tk2, s2)) => Ok((StatementView::Exp(exp), tk2, s2)),
        },
    }
}

/// Statements, as long as the current token can start one.
pub open spec fn parse_repetition_spec(tk: TokenView, s: Seq<u8>) -> Parsed<Seq<StatementView>>
    decreases measure(tk, s), 24nat,
{
    if starts_statement(tk) {
        match parse_statement_spec(tk, s) {
            Err(e) => Err(e),
            Ok((stmt, tk1, s1)) => if moved(tk1, s1, tk, s) {
                with_first(stmt, parse_repetition_spec(tk1, s1))
            } else {
                Err((JsishErrorView::UnexpectedEof, s))
            },
        }
    } else {
        Ok((Seq::empty(), tk, s))
    }
}

/// `{ statement* }`
pub open spec fn parse_block_statement_spec(tk: TokenView, s: Seq<u8>) -> Parsed<StatementView>
    decreases measure(tk, s), 2nat,
{
    match expect(tk, s, TokenView::Lbrace) {
        Err(e) => Err(e),
        Ok((tk1, s1)) => if moved(tk1, s1, tk, s) {
            match parse_repetition_spec(tk1, s1) {
                Err(e) => Err(e),
                Ok((stmts, tk2, s2)) => match expect(tk2, s2, TokenView::Rbrace) {
                    Err(e) => Err(e),
                    Ok((tk3, s3)) => Ok((StatementView::Block(stmts), tk3, s3)),
                },
            }
        } else {
            Err((JsishErrorView::UnexpectedEof, s))
        },
    }
}

/// `else block`, or nothing: then the branch is an empty block.
pub open spec fn parse_else_spec(tk: TokenView, s: Seq<u8>) -> Parsed<StatementView>
    decreases measure(tk, s), 3nat,
{
    if tk == TokenView::Else {
        match advance(s) {
            Err(e) => Err(e),
            Ok((tk1, s1)) => if moved(tk1, s1, tk, s) {
                parse_block_statement_spec(tk1, s1)
            } else {
                Err((JsishErrorView::UnexpectedEof, s))
            },
        }
    } else {
        Ok((StatementView::Block(Seq::empty()), tk, s))
    }
}

/// `( expression ) block`: what follows the keyword of `if` and of `while`.
pub open spec fn parse_guarded_block_spec(tk: TokenView, s: Seq<u8>) -> Parsed<
    (ExpressionView, StatementView),
>
    decreases measure(tk, s), 1nat,
{
    match expect(tk, s, TokenView::Lparen) {
        Err(e) => Err(e),
        Ok((tk1, s1)) => if moved(tk1, s1, tk, s) {
            match parse_expression_spec(tk1, s1) {
                Err(e) => Err(e),
                Ok((guard, tk2, s2)) => match expect(tk2, s2, TokenView::Rparen) {
                    Err(e) => Err(e),
                    Ok((tk3, s3)) => if moved(tk3, s3, tk, s) {
                        match parse_block_statement_spec(tk3, s3) {
                            Err(e) => Err(e),
                            Ok((body, tk4, s4)) => Ok(((guard, body), tk4, s4)),
                        }
                    } else {
                        Err((JsishErrorView::UnexpectedEof, s))
                    },
                },
            }
        } else {
            Err((JsishErrorView::UnexpectedEof, s))
        },
    }
}

/// `if ( expression ) block`, then `else block` if an `else` follows.
pub open spec fn parse_if_statement_spec(tk: TokenView, s: Seq<u8>) -> Parsed<StatementView>
    decreases measure(tk, s), 4nat,
{
    match expect(tk, s, TokenView::If) {
        Err(e) => Err(e),
        Ok((tk1, s1)) => if moved(tk1, s1, tk, s) {
            match parse_guarded_block_spec(tk1, s1) {
                Err(e) => Err(e),
                Ok(((guard, th), tk2, s2)) => if moved(tk2, s2, tk, s) {
                    match parse_else_spec(tk2, s2) {
                        Err(e) => Err(e),
                        Ok((el, tk3, s3)) => Ok(
                            (StatementView::If(guard, Box::new(th), Box::new(el)), tk3, s3),
                        ),
                    }
                } else {
                    Err((JsishErrorView::UnexpectedEof, s))
                },
            }
        } else {
            Err((JsishErrorView::UnexpectedEof, s))
        },
    }
}

/// `while ( expression ) block`
pub open spec fn parse_while_statement_spec(tk: TokenView, s: Seq<u8>) -> Parsed<StatementView>
    decreases measure(tk, s), 4nat,
{
    match expect(tk, s, TokenView::While) {
        Err(e) => Err(e),
        Ok((tk1, s1)) => if moved(tk1, s1, tk, s) {
            match parse_guarded_block_spec(tk1, s1) {
                Err(e) => Err(e),
                Ok(((guard, body), tk2, s2)) => Ok(
                    (StatementView::While(guard, Box::new(body)), tk2, s2),
                ),
            }
        } else {
            Err((JsishErrorView::UnexpectedEof, s))
        },
    }
}

/// One statement, chosen by the current token.
pub open spec fn parse_statement_spec(tk: TokenView, s: Seq<u8>) -> Parsed<StatementView>
    decreases measure(tk, s), 23nat,
{
    if tk == TokenView::Print {
        parse_print_statement_spec(tk, s)
    } else if tk == TokenView::Lbrace {
        parse_block_statement_spec(tk, s)
    } else if tk == TokenView::If {
        parse_if_statement_spec(tk, s)
    } else if tk == TokenView::While {
        parse_while_statement_spec(tk, s)
    } else if starts_expression(tk) {
        parse_expression_statement_spec(tk, s)
    } else {
        Err((JsishErrorView::ExpectedStatement, s))
    }
}

/// `identifier`, then `= assignment` if an `=` follows.
pub open spec fn parse_variable_element_spec(tk: TokenView, s: Seq<u8>) -> Parsed<
    DeclarationView,
> {
    match tk {
        TokenView::Id(id) => match advance(s) {
            Err(e) => Err(e),
            Ok((tk1, s1)) => if tk1 == TokenView::Assign {
                match advance(s1) {
                    Err(e) => Err(e),
                    Ok((tk2, s2)) => match parse_assignment_expression_spec(tk2, s2) {
                        Err(e) => Err(e),
                        Ok((src, tk3, s3)) => Ok((DeclarationView::Init(id, src), tk3, s3)),
                    },
                }
            } else {
                Ok((DeclarationView::Id(id), tk1, s1))
            },
        },
        _ => Err(
            (JsishErrorView::SyntaxError { expected: ExpectedView::Identifier, found: tk }, s),
        ),
    }
}

/// `, declaration`, as long as the current token is a comma.
pub open spec fn parse_comma_repetition_spec(tk: TokenView, s: Seq<u8>) -> Parsed<
    Seq<DeclarationView>,
>
    decreases measure(tk, s),
{
    if tk == TokenView::Comma {
        match advance(s) {
            Err(e) => Err(e),
            Ok((tk1, s1)) => match parse_variable_element_spec(tk1, s1) {
                Err(e) => Err(e),
                Ok((decl, tk2, s2)) => if moved(tk2, s2, tk, s) {
                    with_first(decl, parse_comma_repetition_spec(tk2, s2))
                } else {
                    Err((JsishErrorView::UnexpectedEof, s))
                },
            },
        }
    } else {
        Ok((Seq::empty(), tk, s))
    }
}

/// `var declaration (, declaration)* ;`
pub open spec fn parse_variable_elements_spec(tk: TokenView, s: Seq<u8>) -> Parsed<
    Seq<DeclarationView>,
> {
    match expect(tk, s, TokenView::Var) {
        Err(e) => Err(e),
        Ok((tk1, s1)) => match parse_variable_element_spec(tk1, s1) {
            Err(e) => Err(e),
            Ok((first_decl, tk2, s2)) => match parse_comma_repetition_spec(tk2, s2) {
                Err(e) => Err(e),
                Ok((cons_decl, tk3, s3)) => match expect(tk3, s3, TokenView::Semi) {
                    Err(e) => Err(e),
                    Ok((tk4, s4)) => Ok((seq![first_decl] + cons_decl, tk4, s4)),
                },
            },
        },
    }
}

/// A top-level element: a `var` declaration list or a statement.
pub open spec fn parse_source_element_spec(tk: TokenView, s: Seq<u8>) -> Parsed<
    SourceElementView,
> {
    if tk == TokenView::Var {
        match parse_variable_elements_spec(tk, s) {
            Err(e) => Err(e),
            Ok((decls, tk1, s1)) => Ok((SourceElementView::VarDecl(decls), tk1, s1)),
        }
    } else {
        match parse_statement_spec(tk, s) {
            Err(e) => Err(e),
            Ok((stmt, tk1, s1)) => Ok((SourceElementView::Stmt(stmt), tk1, s1)),
        }
    }
}

/// Top-level elements, as long as the current token can start one.
pub open spec fn parse_source_elements_spec(tk: TokenView, s: Seq<u8>) -> Parsed<
    Seq<SourceElementView>,
>
    decreases measure(tk, s),
{
    if starts_source_element(tk) {
        match parse_source_element_spec(tk, s) {
            Err(e) => Err(e),
            Ok((elem, tk1, s1)) => if moved(tk1, s1, tk, s) {
                with_first(elem, parse_source_elements_spec(tk1, s1))
            } else {
                Err((JsishErrorView::UnexpectedEof, s))
            },
        }
    } else {
        Ok((Seq::empty(), tk, s))
    }
}

/// Zero or more top-level elements, then the end of the input.
pub open spec fn parse_program_spec(tk: TokenView, s: Seq<u8>) -> Parsed<ProgramView> {
    match parse_source_elements_spec(tk, s) {
        Err(e) => Err(e),
        Ok((elems, tk1, s1)) => match expect(tk1, s1, TokenView::Eof) {
            Err(e) => Err(e),
            Ok((tk2, s2)) => Ok((ProgramView { elements: elems }, tk2, s2)),
        },
    }
}

/// The program that the source text `s` denotes, or the first error that
/// tokenizing or parsing runs into.
pub open spec fn parse_spec(s: Seq<u8>) -> Result<ProgramView, JsishErrorView> {
    match advance(s) {
        Err((e, _)) => Err(e),
        Ok((tk, s1)) => match parse_program_spec(tk, s1) {
            Err((e, _)) => Err(e),
            Ok((prog, _, _)) => Ok(prog),
        },
    }
}

/// A step over a token never gives input back, and a step over anything but
/// the end of the input moves forward.
pub proof fn lemma_advance_progress(tk: TokenView, s: Seq<u8>)
    ensures
        advance(s) matches Ok((t, r)) ==> measure(t, r) <= measure(tk, s) && (tk != TokenView::Eof
            ==> moved(t, r, tk, s)),
{
    lemma_lex_progress(s);
}

/// Whether the production result `p` moved forward from the state `(tk, s)`.
pub open spec fn progressed<T>(p: Parsed<T>, tk: TokenView, s: Seq<u8>) -> bool {
    p matches Ok((_, t, r)) ==> moved(t, r, tk, s)
}

/// Whether the production result `p` did not move back from the state `(tk, s)`.
pub open spec fn not_regressed<T>(p: Parsed<T>, tk: TokenView, s: Seq<u8>) -> bool {
    p matches Ok((_, t, r)) ==> measure(t, r) <= measure(tk, s)
}

/// A parenthesized expression that succeeds moves forward in the input.
pub proof fn lemma_parenthesized_progress(tk: TokenView, s: Seq<u8>)
    ensures
        progressed(parse_parenthesized_expression_spec(tk, s), tk, s),
    decreases measure(tk, s), 0nat,
{
    lemma_advance_progress(tk, s);
    if let Ok((tk1, s1)) = expect(tk, s, TokenView::Lparen) {
        if moved(tk1, s1, tk, s) {
            lemma_expression_progress(tk1, s1);
            if let Ok((exp, tk2, s2)) = parse_expression_spec(tk1, s1) {
                lemma_advance_progress(tk2, s2);
            }
        }
    }
}

/// A primary expression that succeeds moves forward in the input.
pub proof fn lemma_primary_progress(tk: TokenView, s: Seq<u8>)
    ensures
        progressed(parse_primary_expression_spec(tk, s), tk, s),
    decreases measure(tk, s), 1nat,
{
    lemma_advance_progress(tk, s);
    if tk == TokenView::Lparen {
        lemma_parenthesized_progress(tk, s);
    }
}

/// A prefix expression that succeeds moves forward in the input.
pub proof fn lemma_unary_progress(tk: TokenView, s: Seq<u8>)
    ensures
        progressed(parse_unary_expression_spec(tk, s), tk, s),
    decreases measure(tk, s), 2nat,
{
    lemma_advance_progress(tk, s);
    if prefix_operator(tk) is Some {
        if let Ok((tk1, s1)) = advance(s) {
            if moved(tk1, s1, tk, s) {
                lemma_unary_progress(tk1, s1);
            }
        }
    } else {
        lemma_primary_progress(tk, s);
    }
}

/// An operand that succeeds moves forward in the input.
pub proof fn lemma_operand_progress(level: BinaryLevel, tk: TokenView, s: Seq<u8>)
    ensures
        progressed(parse_operand_spec(level, tk, s), tk, s),
    decreases measure(tk, s), 3 + 2 * level_height(level),
{
    match level {
        BinaryLevel::Multiplicative => lemma_unary_progress(tk, s),
        BinaryLevel::Additive => lemma_binary_progress(BinaryLevel::Multiplicative, tk, s),
        BinaryLevel::Relational => lemma_binary_progress(BinaryLevel::Additive, tk, s),
        BinaryLevel::Equality => lemma_binary_progress(BinaryLevel::Relational, tk, s),
        BinaryLevel::And => lemma_binary_progress(BinaryLevel::Equality, tk, s),
        BinaryLevel::Or => lemma_binary_progress(BinaryLevel::And, tk, s),
        BinaryLevel::Comma => lemma_assignment_progress(tk, s),
    }
}

/// The rest of a chain of operators never moves back in the input.
pub proof fn lemma_binary_rest_progress(
    level: BinaryLevel,
    lft: ExpressionView,
    tk: TokenView,
    s: Seq<u8>,
)
    ensures
        not_regressed(parse_binary_rest_spec(level, lft, tk, s), tk, s),
    decreases measure(tk, s), 0nat,
{
    if let Some(opr) = level_operator(level, tk) {
        if let Ok((tk2, s2)) = advance(s) {
            if moved(tk2, s2, tk, s) {
                if let Ok((rht, tk3, s3)) = parse_operand_spec(level, tk2, s2) {
                    if moved(tk3, s3, tk, s) {
                        lemma_binary_rest_progress(
                            level,
                            ExpressionView::Binary(opr, Box::new(lft), Box::new(rht)),
                            tk3,
                            s3,
                        );
                    }
                }
            }
        }
    }
}

/// A chain of operators that succeeds moves forward in the input.
pub proof fn lemma_binary_progress(level: BinaryLevel, tk: TokenView, s: Seq<u8>)
    ensures
        progressed(parse_binary_expression_spec(level, tk, s), tk, s),
    decreases measure(tk, s), 4 + 2 * level_height(level),
{
    lemma_operand_progress(level, tk, s);
    if let Ok((lft, tk1, s1)) = parse_operand_spec(level, tk, s) {
        if moved(tk1, s1, tk, s) {
            lemma_binary_rest_progress(level, lft, tk1, s1);
        }
    }
}

/// A conditional expression that succeeds moves forward in the input.
pub proof fn lemma_conditional_progress(tk: TokenView, s: Seq<u8>)
    ensures
        progressed(parse_conditional_expression_spec(tk, s), tk, s),
    decreases measure(tk, s), 15nat,
{
    lemma_binary_progress(BinaryLevel::Or, tk, s);
    if let Ok((guard, tk1, s1)) = parse_binary_expression_spec(BinaryLevel::Or, tk, s) {
        if tk1 == TokenView::Question {
            lemma_advance_progress(tk1, s1);
            if let Ok((tk2, s2)) = advance(s1) {
                lemma_assignment_progress(tk2, s2);
                if let Ok((then_exp, tk3, s3)) = parse_assignment_expression_spec(tk2, s2) {
                    lemma_advance_progress(tk3, s3);
                    if let Ok((tk4, s4)) = expect(tk3, s3, TokenView::Colon) {
                        lemma_assignment_progress(tk4, s4);
                    }
                }
            }
        }
    }
}

/// An assignment expression that succeeds moves forward in the input.
pub proof fn lemma_assignment_progress(tk: TokenView, s: Seq<u8>)
    ensures
        progressed(parse_assignment_expression_spec(tk, s), tk, s),
    decreases measure(tk, s), 16nat,
{
    lemma_conditional_progress(tk, s);
    if let Ok((lhs, tk1, s1)) = parse_conditional_expression_spec(tk, s) {
        if tk1 == TokenView::Assign {
            lemma_advance_progress(tk1, s1);
            if let Ok((tk2, s2)) = advance(s1) {
                lemma_assignment_progress(tk2, s2);
            }
        }
    }
}

/// An expression that succeeds moves forward in the input.
pub proof fn lemma_expression_progress(tk: TokenView, s: Seq<u8>)
    ensures
        progressed(parse_expression_spec(tk, s), tk, s),
    decreases measure(tk, s), 21nat,
{
    lemma_binary_progress(BinaryLevel::Comma, tk, s);
}

/// Every expression production that succeeds moves forward in the input;
/// the rest of a chain of operators never moves back.
pub proof fn lemma_parse_progress(tk: TokenView, s: Seq<u8>)
    ensures
        progressed(parse_parenthesized_expression_spec(tk, s), tk, s),
        progressed(parse_primary_expression_spec(tk, s), tk, s),
        progressed(parse_unary_expression_spec(tk, s), tk, s),
        forall|level: BinaryLevel| #[trigger]
            progressed(parse_operand_spec(level, tk, s), tk, s),
        forall|level: BinaryLevel| #[trigger]
            progressed(parse_binary_expression_spec(level, tk, s), tk, s),
        forall|level: BinaryLevel, lft: ExpressionView| #[trigger]
            not_regressed(parse_binary_rest_spec(level, lft, tk, s), tk, s),
        progressed(parse_conditional_expression_spec(tk, s), tk, s),
        progressed(parse_assignment_expression_spec(tk, s), tk, s),
        progressed(parse_expression_spec(tk, s), tk, s),
{
    lemma_parenthesized_progress(tk, s);
    lemma_primary_progress(tk, s);
    lemma_unary_progress(tk, s);
    assert forall|level: BinaryLevel| #[trigger]
        progressed(parse_operand_spec(level, tk, s), tk, s) by {
        lemma_operand_progress(level, tk, s);
    }
    assert forall|level: BinaryLevel| #[trigger]
        progressed(parse_binary_expression_spec(level, tk, s), tk, s) by {
        lemma_binary_progress(level, tk, s);
    }
    assert forall|level: BinaryLevel, lft: ExpressionView| #[trigger]
        not_regressed(parse_binary_rest_spec(level, lft, tk, s), tk, s) by {
        lemma_binary_rest_progress(level, lft, tk, s);
    }
    lemma_conditional_progress(tk, s);
    lemma_assignment_progress(tk, s);
    lemma_expression_progress(tk, s);
}

/// Every statement production that succeeds moves forward in the input; a
/// repetition and an optional `else` never move back.
pub proof fn lemma_statement_progress(tk: TokenView, s: Seq<u8>)
    ensures
        progressed(parse_print_statement_spec(tk, s), tk, s),
        progressed(parse_expression_statement_spec(tk, s), tk, s),
        progressed(parse_block_statement_spec(tk, s), tk, s),
        progressed(parse_guarded_block_spec(tk, s), tk, s),
        progressed(parse_if_statement_spec(tk, s), tk, s),
        progressed(parse_while_statement_spec(tk, s), tk, s),
        progressed(parse_statement_spec(tk, s), tk, s),
        not_regressed(parse_else_spec(tk, s), tk, s),
        not_regressed(parse_repetition_spec(tk, s), tk, s),
    decreases measure(tk, s), 1nat,
{
    lemma_advance_progress(tk, s);
    lemma_parse_progress(tk, s);
    // print
    if let Ok((tk1, s1)) = expect(tk, s, TokenView::Print) {
        lemma_parse_progress(tk1, s1);
        if let Ok((exp, tk2, s2)) = parse_expression_spec(tk1, s1) {
            lemma_advance_progress(tk2, s2);
        }
    }
    // expression statement
    if let Ok((exp, tk1, s1)) = parse_expression_spec(tk, s) {
        lemma_advance_progress(tk1, s1);
    }
    // block
    if let Ok((tk1, s1)) = expect(tk, s, TokenView::Lbrace) {
        if moved(tk1, s1, tk, s) {
            lemma_statement_progress(tk1, s1);
            if let Ok((stmts, tk2, s2)) = parse_repetition_spec(tk1, s1) {
                lemma_advance_progress(tk2, s2);
            }
        }
    }
    // else
    if tk == TokenView::Else {
        if let Ok((tk1, s1)) = advance(s) {
            if moved(tk1, s1, tk, s) {
                lemma_statement_progress(tk1, s1);
            }
        }
    }
    // guarded block
    if let Ok((tk1, s1)) = expect(tk, s, TokenView::Lparen) {
        lemma_parse_progress(tk1, s1);
        if let Ok((guard, tk2, s2)) = parse_expression_spec(tk1, s1) {
            lemma_advance_progress(tk2, s2);
            if let Ok((tk3, s3)) = expect(tk2, s2, TokenView::Rparen) {
                if moved(tk3, s3, tk, s) {
                    lemma_statement_progress(tk3, s3);
                }
            }
        }
    }
    // if
    if let Ok((tk1, s1)) = expect(tk, s, TokenView::If) {
        if moved(tk1, s1, tk, s) {
            lemma_statement_progress(tk1, s1);
            if let Ok(((guard, th), tk2, s2)) = parse_guarded_block_spec(tk1, s1) {
                lemma_statement_progress(tk2, s2);
            }
        }
    }
    // while
    if let Ok((tk1, s1)) = expect(tk, s, TokenView::While) {
        if moved(tk1, s1, tk, s) {
            lemma_statement_progress(tk1, s1);
        }
    }
    // repetition
    if starts_statement(tk) {
        if let Ok((stmt, tk1, s1)) = parse_statement_spec(tk, s) {
            if moved(tk1, s1, tk, s) {
                lemma_statement_progress(tk1, s1);
            }
        }
    }
}

/// A declaration that succeeds moves forward in the input.
pub proof fn lemma_variable_element_progress(tk: TokenView, s: Seq<u8>)
    ensures
        progressed(parse_variable_element_spec(tk, s), tk, s),
{
    lemma_advance_progress(tk, s);
    if let Ok((tk1, s1)) = advance(s) {
        lemma_advance_progress(tk1, s1);
        if let Ok((tk2, s2)) = advance(s1) {
            lemma_parse_progress(tk2, s2);
        }
    }
}

/// The rest of a declaration list never moves back.
pub proof fn lemma_comma_repetition_progress(tk: TokenView, s: Seq<u8>)
    ensures
        not_regressed(parse_comma_repetition_spec(tk, s), tk, s),
    decreases measure(tk, s),
{
    lemma_advance_progress(tk, s);
    if tk == TokenView::Comma {
        if let Ok((tk1, s1)) = advance(s) {
            lemma_variable_element_progress(tk1, s1);
            if let Ok((decl, tk2, s2)) = parse_variable_element_spec(tk1, s1) {
                if moved(tk2, s2, tk, s) {
                    lemma_comma_repetition_progress(tk2, s2);
                }
            }
        }
    }
}

/// A top-level element that succeeds moves forward in the input.
pub proof fn lemma_source_element_progress(tk: TokenView, s: Seq<u8>)
    ensures
        progressed(parse_variable_elements_spec(tk, s), tk, s),
        progressed(parse_source_element_spec(tk, s), tk, s),
{
    lemma_advance_progress(tk, s);
    lemma_statement_progress(tk, s);
    if let Ok((tk1, s1)) = expect(tk, s, TokenView::Var) {
        lemma_variable_element_progress(tk1, s1);
        if let Ok((first_decl, tk2, s2)) = parse_variable_element_spec(tk1, s1) {
            lemma_comma_repetition_progress(tk2, s2);
            if let Ok((cons_decl, tk3, s3)) = parse_comma_repetition_spec(tk2, s2) {
                lemma_advance_progress(tk3, s3);
            }
        }
    }
}

/// Whether an executable step result and the input left in the stream are
/// what the step `p` gives.
pub open spec fn stepped_as(res: JsishResult<Token>, rest: Seq<u8>, p: Stepped) -> bool {
    match p {
        Ok((t, r)) => res is Ok && res->Ok_0@ == t && rest == r,
        Err((e, r)) => res is Err && res->Err_0@ == e && rest == r,
    }
}

/// Whether an executable production result and the input left in the stream
/// are what the production `p` gives.
pub open spec fn parsed_as<T: View>(
    res: JsishResult<(T, Token)>,
    rest: Seq<u8>,
    p: Parsed<T::V>,
) -> bool {
    match p {
        Ok((x, t, r)) => res is Ok && (res->Ok_0).0@ == x && (res->Ok_0).1@ == t && rest == r,
        Err((e, r)) => res is Err && res->Err_0@ == e && rest == r,
    }
}

/// [`parsed_as`] for a repetition of statements.
pub open spec fn parsed_statements_as(
    res: JsishResult<(Vec<Statement>, Token)>,
    rest: Seq<u8>,
    p: Parsed<Seq<StatementView>>,
) -> bool {
    match p {
        Ok((x, t, r)) => res is Ok && statement_views((res->Ok_0).0@) == x && (res->Ok_0).1@ == t
            && rest == r,
        Err((e, r)) => res is Err && res->Err_0@ == e && rest == r,
    }
}

/// [`parsed_as`] for a list of declarations.
pub open spec fn parsed_declarations_as(
    res: JsishResult<(Vec<Declaration>, Token)>,
    rest: Seq<u8>,
    p: Parsed<Seq<DeclarationView>>,
) -> bool {
    match p {
        Ok((x, t, r)) => res is Ok && declaration_views((res->Ok_0).0@) == x && (res->Ok_0).1@
            == t && rest == r,
        Err((e, r)) => res is Err && res->Err_0@ == e && rest == r,
    }
}

/// Puts the elements `front` before the elements that a repetition gave.
pub open spec fn with_front<T>(front: Seq<T>, rest: Parsed<Seq<T>>) -> Parsed<Seq<T>> {
    match rest {
        Ok((items, tk, s)) => Ok((front + items, tk, s)),
        Err(e) => Err(e),
    }
}

/// Steps over the current token if it is `expected`.
fn match_tk(itr: &mut ByteStream, tk: Token, expected: Token) -> (res: JsishResult<Token>)
    ensures
        stepped_as(res, final(itr)@, expect(tk@, old(itr)@, expected@)),
{
    if tk == expected {
        next_token(itr)
    } else {
        Err(JsishError::SyntaxError { expected: Expected::Token(expected), found: tk })
    }
}

/// Steps over the end of the input, which stays the end of the input.
fn match_eof(itr: &mut ByteStream, tk: Token) -> (res: JsishResult<Token>)
    ensures
        stepped_as(res, final(itr)@, expect(tk@, old(itr)@, TokenView::Eof)),
{
    match tk {
        Token::TkEof => next_token(itr),
        _ => Err(JsishError::SyntaxError { expected: Expected::Token(Token::TkEof), found: tk }),
    }
}

/// Steps over an identifier and gives its name.
fn match_id(itr: &mut ByteStream, tk: Token) -> (res: JsishResult<(String, Token)>)
    ensures
        match tk@ {
            TokenView::Id(id) => match advance(old(itr)@) {
                Ok((t, r)) => res is Ok && (res->Ok_0).0@ == id && (res->Ok_0).1@ == t
                    && final(itr)@ == r,
                Err((e, r)) => res is Err && res->Err_0@ == e && final(itr)@ == r,
            },
            _ => res is Err && res->Err_0@ == (JsishErrorView::SyntaxError {
                expected: ExpectedView::Identifier,
                found: tk@,
            }) && final(itr)@ == old(itr)@,
        },
{
    match tk {
        Token::TkId(s) => {
            let next = next_token(itr)?;
            Ok((s, next))
        },
        _ => Err(JsishError::SyntaxError { expected: Expected::Identifier, found: tk }),
    }
}

/// Whether an expression can start with `tk`.
pub fn is_expression(tk: &Token) -> (r: bool)
    ensures
        r == starts_expression(tk@),
{
    match tk {
        Token::TkLparen => true,
        Token::TkId(_) => true,
        Token::TkNum(_) => true,
        Token::TkString(_) => true,
        Token::TkTrue => true,
        Token::TkFalse => true,
        Token::TkUndefined => true,
        Token::TkNot => true,
        Token::TkTypeof => true,
        Token::TkMinus => true,
        _ => false,
    }
}

/// Whether an expression statement can start with `tk`.
pub fn is_expression_statement(tk: &Token) -> (r: bool)
    ensures
        r == starts_expression(tk@),
{
    !matches!(tk, Token::TkFunction) && !matches!(tk, Token::TkLbrace) && is_expression(tk)
}

/// Whether `exp` may stand on the left of an `=`: only a bare identifier may.
pub fn is_valid_lhs(exp: &Expression) -> (r: bool)
    ensures
        r == (exp@ is Id),
{
    match exp {
        Expression::ExpId(_) => true,
        _ => false,
    }
}

/// Whether a statement can start with `tk`.
pub fn is_statement(tk: &Token) -> (r: bool)
    ensures
        r == starts_statement(tk@),
{
    match tk {
        Token::TkPrint => true,
        Token::TkLbrace => true,
        Token::TkIf => true,
        Token::TkWhile => true,
        tk => is_expression_statement(tk),
    }
}

/// Whether a top-level element can start with `tk`.
pub fn is_source_element(tk: &Token) -> (r: bool)
    ensures
        r == starts_source_element(tk@),
{
    is_statement(tk) || matches!(tk, Token::TkVar)
}

/// The index of the first pair of `op_pairs` whose token is `tk`, if there is one.
pub open spec fn first_match<T>(tk: TokenView, op_pairs: Seq<(Token, T)>) -> Option<int>
    decreases op_pairs.len(),
{
    if op_pairs.len() == 0 {
        None
    } else if op_pairs[0].0@ == tk {
        Some(0int)
    } else {
        match first_match(tk, op_pairs.drop_first()) {
            Some(i) => Some(i + 1),
            None => None,
        }
    }
}

/// Looks `tk` up in a table of operators: the first pair whose token is `tk`.
pub fn search_for_op<'a, T>(tk: &Token, op_pairs: &'a Vec<(Token, T)>) -> (res: Option<
    &'a (Token, T),
>)
    ensures
        match first_match(tk@, op_pairs@) {
            Some(i) => 0 <= i < op_pairs.len() && res == Some(&op_pairs[i]),
            None => res is None,
        },
{
    let mut i: usize = 0;
    proof {
        assert(op_pairs@.skip(0) =~= op_pairs@);
    }
    while i < op_pairs.len()
        invariant
            0 <= i <= op_pairs.len(),
            first_match(tk@, op_pairs@) == match first_match(tk@, op_pairs@.skip(i as int)) {
                Some(j) => Some(j + i),
                None => None,
            },
        decreases op_pairs.len() - i,
    {
        proof {
            assert(op_pairs@.skip(i as int).drop_first() =~= op_pairs@.skip(i + 1));
        }
        if *tk == op_pairs[i].0 {
            return Some(&op_pairs[i]);
        }
        i = i + 1;
    }
    None
}

/// The table of the operators of a level, in the order in which they are tried.
fn level_operators(level: BinaryLevel) -> (res: Vec<(Token, BinaryOperator)>)
    ensures
        forall|tk: TokenView| #[trigger]
            level_operator(level, tk) == match first_match(tk, res@) {
                Some(i) => Some(res@[i].1),
                None => None,
            },
{
    let res = match level {
        BinaryLevel::Comma => vec![(Token::TkComma, BinaryOperator::BopComma)],
        BinaryLevel::Or => vec![(Token::TkOr, BinaryOperator::BopOr)],
        BinaryLevel::And => vec![(Token::TkAnd, BinaryOperator::BopAnd)],
        BinaryLevel::Equality => vec![
            (Token::TkNe, BinaryOperator::BopNe),
            (Token::TkEq, BinaryOperator::BopEq),
        ],
        BinaryLevel::Relational => vec![
            (Token::TkLe, BinaryOperator::BopLe),
            (Token::TkLt, BinaryOperator::BopLt),
            (Token::TkGt, BinaryOperator::BopGt),
            (Token::TkGe, BinaryOperator::BopGe),
        ],
        BinaryLevel::Additive => vec![
            (Token::TkPlus, BinaryOperator::BopPlus),
            (Token::TkMinus, BinaryOperator::BopMinus),
        ],
        BinaryLevel::Multiplicative => vec![
            (Token::TkTimes, BinaryOperator::BopTimes),
            (Token::TkDivide, BinaryOperator::BopDivide),
            (Token::TkMod, BinaryOperator::BopMod),
        ],
    };
    proof {
        reveal_with_fuel(first_match, 5);
        assert forall|tk: TokenView| #[trigger]
            level_operator(level, tk) == match first_match(tk, res@) {
                Some(i) => Some(res@[i].1),
                None => None,
            } by {
            let a = res@.drop_first();
            let b = a.drop_first();
            let c = b.drop_first();
            let d = c.drop_first();
        }
    }
    res
}

/// The table of the prefix operators.
fn prefix_operators() -> (res: Vec<(Token, UnaryOperator)>)
    ensures
        forall|tk: TokenView| #[trigger]
            prefix_operator(tk) == match first_match(tk, res@) {
                Some(i) => Some(res@[i].1),
                None => None,
            },
{
    let res = vec![
        (Token::TkNot, UnaryOperator::UopNot),
        (Token::TkTypeof, UnaryOperator::UopTypeof),
        (Token::TkMinus, UnaryOperator::UopMinus),
    ];
    proof {
        reveal_with_fuel(first_match, 5);
        assert forall|tk: TokenView| #[trigger]
            prefix_operator(tk) == match first_match(tk, res@) {
                Some(i) => Some(res@[i].1),
                None => None,
            } by {
            let a = res@.drop_first();
            let b = a.drop_first();
            let c = b.drop_first();
        }
    }
    res
}

/// The operator that `tk` spells at `level`, if it spells one there.
fn operator_at(level: BinaryLevel, tk: &Token) -> (res: Option<BinaryOperator>)
    ensures
        res == level_operator(level, tk@),
{
    let op_pairs = level_operators(level);
    assert(level_operator(level, tk@) == match first_match(tk@, op_pairs@) {
        Some(i) => Some(op_pairs@[i].1),
        None => None,
    });
    match search_for_op(tk, &op_pairs) {
        Some(pair) => Some(pair.1),
        None => None,
    }
}

/// Parses an operand of the operators of `level`.
fn parse_operand(itr: &mut ByteStream, tk: Token, level: BinaryLevel) -> (res: JsishResult<
    (Expression, Token),
>)
    ensures
        parsed_as(res, final(itr)@, parse_operand_spec(level, tk@, old(itr)@)),
    decreases measure(tk@, old(itr)@), 30 + 20 * level_height(level),
{
    match level {
        BinaryLevel::Multiplicative => parse_unary_expression(itr, tk),
        BinaryLevel::Additive => parse_multiplicative_expression(itr, tk),
        BinaryLevel::Relational => parse_additive_expression(itr, tk),
        BinaryLevel::Equality => parse_relational_expression(itr, tk),
        BinaryLevel::And => parse_equality_expression(itr, tk),
        BinaryLevel::Or => parse_logical_and_expression(itr, tk),
        BinaryLevel::Comma => parse_assignment_expression(itr, tk),
    }
}

/// Parses a left-associative chain of the operators of `level`: one
/// operand, then as many operators with their operands as follow.
#[verifier::loop_isolation(false)]
fn parse_binary_expression(itr: &mut ByteStream, tk: Token, level: BinaryLevel) -> (res:
    JsishResult<(Expression, Token)>)
    ensures
        parsed_as(res, final(itr)@, parse_binary_expression_spec(level, tk@, old(itr)@)),
    decreases measure(tk@, old(itr)@), 40 + 20 * level_height(level),
{
    let ghost tk0 = tk@;
    let ghost s0 = itr@;
    proof {
        lemma_operand_progress(level, tk0, s0);
    }
    let (mut lft, tk1) = parse_operand(itr, tk, level)?;
    let mut tk_cursor = tk1;
    let ghost goal = parse_binary_expression_spec(level, tk0, s0);
    let mut done = false;
    while !done
        invariant
            moved(tk_cursor@, itr@, tk0, s0),
            goal == parse_binary_rest_spec(level, lft@, tk_cursor@, itr@),
            done ==> level_operator(level, tk_cursor@) is None,
        decreases measure(tk_cursor@, itr@) + if done { 0nat } else { 1nat },
    {
        let ghost tkc = tk_cursor@;
        let ghost sc = itr@;
        proof {
            lemma_advance_progress(tkc, sc);
        }
        match operator_at(level, &tk_cursor) {
            Some(opr) => {
                let tk2 = match next_token(itr) {
                    Ok(t) => t,
                    Err(e) => {
                        return Err(e);
                    },
                };
                proof {
                    lemma_operand_progress(level, tk2@, itr@);
                }
                let (rht, tk3) = match parse_operand(itr, tk2, level) {
                    Ok(p) => p,
                    Err(e) => {
                        return Err(e);
                    },
                };
                lft = Expression::ExpBinary(
                    ExpBinaryData { opr, lft: Box::new(lft), rht: Box::new(rht) },
                );
                tk_cursor = tk3;
            },
            None => {
                done = true;
            },
        }
    }
    Ok((lft, tk_cursor))
}

/// Parses an expression, assignments joined by commas, that starts with the
/// current token `tk`, from the stream that stands behind that token.
///
/// The expression, the new current token and the stream afterwards are
/// exactly those of [`parse_expression_spec`]; each error comes on the
/// inputs on which `parse_expression_spec` names it.
pub fn parse_expression(itr: &mut ByteStream, tk: Token) -> (res: JsishResult<(Expression, Token)>)
    ensures
        parsed_as(res, final(itr)@, parse_expression_spec(tk@, old(itr)@)),
    decreases measure(tk@, old(itr)@), 210nat,
{
    parse_binary_expression(itr, tk, BinaryLevel::Comma)
}

/// Parses an assignment: a conditional expression, and if an `=` follows a
/// bare identifier, the assignment that is its right side.
fn parse_assignment_expression(itr: &mut ByteStream, tk: Token) -> (res: JsishResult<
    (Expression, Token),
>)
    ensures
        parsed_as(res, final(itr)@, parse_assignment_expression_spec(tk@, old(itr)@)),
    decreases measure(tk@, old(itr)@), 160nat,
{
    proof {
        lemma_conditional_progress(tk@, itr@);
    }
    let (lhs, tk1) = parse_conditional_expression(itr, tk)?;
    if !matches!(tk1, Token::TkAssign) {
        Ok((lhs, tk1))
    } else if !is_valid_lhs(&lhs) {
        Err(JsishError::InvalidAssignmentTarget)
    } else {
        proof {
            lemma_advance_progress(tk1@, itr@);
        }
        let tk2 = match_tk(itr, tk1, Token::TkAssign)?;
        let (rhs, tk3) = parse_assignment_expression(itr, tk2)?;
        Ok(
            (
                Expression::ExpAssign(ExpAssignData { lft: Box::new(lhs), rht: Box::new(rhs) }),
                tk3,
            ),
        )
    }
}

/// Parses a conditional expression: a logical-or expression, and if a `?`
/// follows, the two branches around a `:`.
fn parse_conditional_expression(itr: &mut ByteStream, tk: Token) -> (res: JsishResult<
    (Expression, Token),
>)
    ensures
        parsed_as(res, final(itr)@, parse_conditional_expression_spec(tk@, old(itr)@)),
    decreases measure(tk@, old(itr)@), 150nat,
{
    proof {
        lemma_binary_progress(BinaryLevel::Or, tk@, itr@);
    }
    let (guard, tk1) = parse_logical_or_expression(itr, tk)?;
    if matches!(tk1, Token::TkQuestion) {
        proof {
            lemma_advance_progress(tk1@, itr@);
        }
        let tk2 = match_tk(itr, tk1, Token::TkQuestion)?;
        proof {
            lemma_assignment_progress(tk2@, itr@);
        }
        let (then_exp, tk3) = parse_assignment_expression(itr, tk2)?;
        proof {
            lemma_advance_progress(tk3@, itr@);
        }
        let tk4 = match_tk(itr, tk3, Token::TkColon)?;
        let (else_exp, tk5) = parse_assignment_expression(itr, tk4)?;
        Ok(
            (
                Expression::ExpCond(
                    ExpCondData {
                        guard: Box::new(guard),
                        then_exp: Box::new(then_exp),
                        else_exp: Box::new(else_exp),
                    },
                ),
                tk5,
            ),
        )
    } else {
        Ok((guard, tk1))
    }
}

/// Parses a chain of `||`.
fn parse_logical_or_expression(itr: &mut ByteStream, tk: Token) -> (res: JsishResult<
    (Expression, Token),
>)
    ensures
        parsed_as(
            res,
            final(itr)@,
            parse_binary_expression_spec(BinaryLevel::Or, tk@, old(itr)@),
        ),
    decreases measure(tk@, old(itr)@), 145nat,
{
    parse_binary_expression(itr, tk, BinaryLevel::Or)
}

/// Parses a chain of `&&`.
fn parse_logical_and_expression(itr: &mut ByteStream, tk: Token) -> (res: JsishResult<
    (Expression, Token),
>)
    ensures
        parsed_as(
            res,
            final(itr)@,
            parse_binary_expression_spec(BinaryLevel::And, tk@, old(itr)@),
        ),
    decreases measure(tk@, old(itr)@), 125nat,
{
    parse_binary_expression(itr, tk, BinaryLevel::And)
}

/// Parses a chain of `==` and `!=`.
fn parse_equality_expression(itr: &mut ByteStream, tk: Token) -> (res: JsishResult<
    (Expression, Token),
>)
    ensures
        parsed_as(
            res,
            final(itr)@,
            parse_binary_expression_spec(BinaryLevel::Equality, tk@, old(itr)@),
        ),
    decreases measure(tk@, old(itr)@), 105nat,
{
    parse_binary_expression(itr, tk, BinaryLevel::Equality)
}

/// Parses a chain of `<`, `<=`, `>` and `>=`.
fn parse_relational_expression(itr: &mut ByteStream, tk: Token) -> (res: JsishResult<
    (Expression, Token),
>)
    ensures
        parsed_as(
            res,
            final(itr)@,
            parse_binary_expression_spec(BinaryLevel::Relational, tk@, old(itr)@),
        ),
    decreases measure(tk@, old(itr)@), 85nat,
{
    parse_binary_expression(itr, tk, BinaryLevel::Relational)
}

/// Parses a chain of `+` and `-`.
fn parse_additive_expression(itr: &mut ByteStream, tk: Token) -> (res: JsishResult<
    (Expression, Token),
>)
    ensures
        parsed_as(
            res,
            final(itr)@,
            parse_binary_expression_spec(BinaryLevel::Additive, tk@, old(itr)@),
        ),
    decreases measure(tk@, old(itr)@), 65nat,
{
    parse_binary_expression(itr, tk, BinaryLevel::Additive)
}

/// Parses a chain of `*`, `/` and `%`.
fn parse_multiplicative_expression(itr: &mut ByteStream, tk: Token) -> (res: JsishResult<
    (Expression, Token),
>)
    ensures
        parsed_as(
            res,
            final(itr)@,
            parse_binary_expression_spec(BinaryLevel::Multiplicative, tk@, old(itr)@),
        ),
    decreases measure(tk@, old(itr)@), 45nat,
{
    parse_binary_expression(itr, tk, BinaryLevel::Multiplicative)
}

/// Parses a prefix expression: the operators nest to the right.
fn parse_unary_expression(itr: &mut ByteStream, tk: Token) -> (res: JsishResult<
    (Expression, Token),
>)
    ensures
        parsed_as(res, final(itr)@, parse_unary_expression_spec(tk@, old(itr)@)),
    decreases measure(tk@, old(itr)@), 20nat,
{
    let op_pairs = prefix_operators();
    assert(prefix_operator(tk@) == match first_match(tk@, op_pairs@) {
        Some(i) => Some(op_pairs@[i].1),
        None => None,
    });
    proof {
        lemma_advance_progress(tk@, itr@);
    }
    if let Some(pair) = search_for_op(&tk, &op_pairs) {
        let opr = pair.1;
        let tk1 = next_token(itr)?;
        let (opnd, tk2) = parse_unary_expression(itr, tk1)?;
        Ok((Expression::ExpUnary(ExpUnaryData { opr, opnd: Box::new(opnd) }), tk2))
    } else {
        parse_left_hand_side_expression(itr, tk)
    }
}

/// Parses what may stand on the left of an assignment: a call expression.
fn parse_left_hand_side_expression(itr: &mut ByteStream, tk: Token) -> (res: JsishResult<
    (Expression, Token),
>)
    ensures
        parsed_as(res, final(itr)@, parse_primary_expression_spec(tk@, old(itr)@)),
    decreases measure(tk@, old(itr)@), 13nat,
{
    parse_call_expression(itr, tk)
}

/// Parses a call expression: the grammar has no calls, so a member expression.
fn parse_call_expression(itr: &mut ByteStream, tk: Token) -> (res: JsishResult<
    (Expression, Token),
>)
    ensures
        parsed_as(res, final(itr)@, parse_primary_expression_spec(tk@, old(itr)@)),
    decreases measure(tk@, old(itr)@), 12nat,
{
    parse_member_expression(itr, tk)
}

/// Parses a member expression: the grammar has no members, so a primary expression.
fn parse_member_expression(itr: &mut ByteStream, tk: Token) -> (res: JsishResult<
    (Expression, Token),
>)
    ensures
        parsed_as(res, final(itr)@, parse_primary_expression_spec(tk@, old(itr)@)),
    decreases measure(tk@, old(itr)@), 11nat,
{
    parse_primary_expression(itr, tk)
}

/// Parses `( expression )`.
fn parse_parenthesized_expression(itr: &mut ByteStream, tk: Token) -> (res: JsishResult<
    (Expression, Token),
>)
    ensures
        parsed_as(res, final(itr)@, parse_parenthesized_expression_spec(tk@, old(itr)@)),
    decreases measure(tk@, old(itr)@), 0nat,
{
    proof {
        lemma_advance_progress(tk@, itr@);
    }
    let tk1 = match_tk(itr, tk, Token::TkLparen)?;
    let (exp, tk2) = parse_expression(itr, tk1)?;
    let tk3 = match_tk(itr, tk2, Token::TkRparen)?;
    Ok((exp, tk3))
}

/// Parses a literal, an identifier or a parenthesized expression.
fn parse_primary_expression(itr: &mut ByteStream, tk: Token) -> (res: JsishResult<
    (Expression, Token),
>)
    ensures
        parsed_as(res, final(itr)@, parse_primary_expression_spec(tk@, old(itr)@)),
    decreases measure(tk@, old(itr)@), 10nat,
{
    if matches!(tk, Token::TkLparen) {
        parse_parenthesized_expression(itr, Token::TkLparen)
    } else {
        let exp = match tk {
            Token::TkId(s) => Expression::ExpId(s),
            Token::TkNum(n) => Expression::ExpNum(n),
            Token::TkTrue => Expression::ExpTrue,
            Token::TkFalse => Expression::ExpFalse,
            Token::TkString(s) => Expression::ExpString(s),
            Token::TkUndefined => Expression::ExpUndefined,
            _ => {
                return Err(JsishError::SyntaxError { expected: Expected::Value, found: tk });
            },
        };
        let next = next_token(itr)?;
        Ok((exp, next))
    }
}

/// Parses `print expression ;`.
fn parse_print_statement(itr: &mut ByteStream, tk: Token) -> (res: JsishResult<
    (Statement, Token),
>)
    ensures
        parsed_as(res, final(itr)@, parse_print_statement_spec(tk@, old(itr)@)),
    decreases measure(tk@, old(itr)@), 10nat,
{
    proof {
        lemma_advance_progress(tk@, itr@);
    }
    let tk1 = match_tk(itr, tk, Token::TkPrint)?;
    let (exp, tk2) = parse_expression(itr, tk1)?;
    let tk3 = match_tk(itr, tk2, Token::TkSemi)?;
    Ok((Statement::StPrint(exp), tk3))
}

/// Parses `expression ;`.
fn parse_expression_statement(itr: &mut ByteStream, tk: Token) -> (res: JsishResult<
    (Statement, Token),
>)
    ensures
        parsed_as(res, final(itr)@, parse_expression_statement_spec(tk@, old(itr)@)),
    decreases measure(tk@, old(itr)@), 220nat,
{
    let (exp, tk1) = parse_expression(itr, tk)?;
    let tk2 = match_tk(itr, tk1, Token::TkSemi)?;
    Ok((Statement::StExp(exp), tk2))
}

/// Parses statements as long as the current token can start one.
#[verifier::loop_isolation(false)]
fn parse_repetition(itr: &mut ByteStream, tk: Token) -> (res: JsishResult<
    (Vec<Statement>, Token),
>)
    ensures
        parsed_statements_as(res, final(itr)@, parse_repetition_spec(tk@, old(itr)@)),
    decreases measure(tk@, old(itr)@), 240nat,
{
    let ghost goal = parse_repetition_spec(tk@, itr@);
    let ghost tk0 = tk@;
    let ghost s0 = itr@;
    let mut elems: Vec<Statement> = Vec::new();
    let mut tk_cursor = tk;
    proof {
        let first = parse_repetition_spec(tk_cursor@, itr@);
        if let Ok((items, t, r)) = first {
            assert(statement_views(elems@) + items =~= items);
        }
    }
    while is_statement(&tk_cursor)
        invariant
            measure(tk_cursor@, itr@) <= measure(tk0, s0),
            goal == with_front(statement_views(elems@), parse_repetition_spec(tk_cursor@, itr@)),
        decreases measure(tk_cursor@, itr@),
    {
        let ghost front = statement_views(elems@);
        proof {
            lemma_statement_progress(tk_cursor@, itr@);
        }
        let (elem, tk_temp) = match parse_statement(itr, tk_cursor) {
            Ok(p) => p,
            Err(e) => {
                return Err(e);
            },
        };
        elems.push(elem);
        tk_cursor = tk_temp;
        proof {
            assert(statement_views(elems@) =~= front.push(elem@));
            if let Ok((items, t, r)) = parse_repetition_spec(tk_cursor@, itr@) {
                assert(front.push(elem@) + items =~= front + (seq![elem@] + items));
            }
        }
    }
    proof {
        assert(statement_views(elems@) + Seq::<StatementView>::empty() =~= statement_views(
            elems@,
        ));
    }
    Ok((elems, tk_cursor))
}

/// Parses `{ statement* }`.
fn parse_block_statement(itr: &mut ByteStream, tk: Token) -> (res: JsishResult<
    (Statement, Token),
>)
    ensures
        parsed_as(res, final(itr)@, parse_block_statement_spec(tk@, old(itr)@)),
    decreases measure(tk@, old(itr)@), 20nat,
{
    proof {
        lemma_advance_progress(tk@, itr@);
    }
    let tk1 = match_tk(itr, tk, Token::TkLbrace)?;
    let (stmts, tk2) = parse_repetition(itr, tk1)?;
    let tk3 = match_tk(itr, tk2, Token::TkRbrace)?;
    proof {
        lemma_block_view(stmts);
    }
    Ok((Statement::StBlock(stmts), tk3))
}

/// Parses `else block`; without an `else` the branch is an empty block.
fn parse_else(itr: &mut ByteStream, tk: Token) -> (res: JsishResult<(Statement, Token)>)
    ensures
        parsed_as(res, final(itr)@, parse_else_spec(tk@, old(itr)@)),
    decreases measure(tk@, old(itr)@), 30nat,
{
    if matches!(tk, Token::TkElse) {
        proof {
            lemma_advance_progress(tk@, itr@);
        }
        let tk1 = match_tk(itr, tk, Token::TkElse)?;
        parse_block_statement(itr, tk1)
    } else {
        let empty: Vec<Statement> = Vec::new();
        proof {
            lemma_block_view(empty);
            assert(statement_views(empty@) =~= Seq::<StatementView>::empty());
        }
        Ok((Statement::StBlock(empty), tk))
    }
}

/// Parses `( expression ) block`: what follows the keyword of `if` and of `while`.
fn parse_guarded_block(itr: &mut ByteStream, tk: Token) -> (res: JsishResult<
    ((Expression, Statement), Token),
>)
    ensures
        match parse_guarded_block_spec(tk@, old(itr)@) {
            Ok(((guard, body), t, r)) => res is Ok && (res->Ok_0).0.0@ == guard && (
            res->Ok_0).0.1@ == body && (res->Ok_0).1@ == t && final(itr)@ == r,
            Err((e, r)) => res is Err && res->Err_0@ == e && final(itr)@ == r,
        },
    decreases measure(tk@, old(itr)@), 10nat,
{
    let ghost tk0 = tk@;
    let ghost s0 = itr@;
    proof {
        lemma_advance_progress(tk@, itr@);
    }
    let tk2 = match_tk(itr, tk, Token::TkLparen)?;
    proof {
        lemma_expression_progress(tk2@, itr@);
    }
    let (guard, tk3) = parse_expression(itr, tk2)?;
    proof {
        lemma_advance_progress(tk3@, itr@);
    }
    let tk4 = match_tk(itr, tk3, Token::TkRparen)?;
    let (body, tk5) = parse_block_statement(itr, tk4)?;
    Ok(((guard, body), tk5))
}

/// Parses `if ( expression ) block`, and `else block` if an `else` follows.
fn parse_if_statement(itr: &mut ByteStream, tk: Token) -> (res: JsishResult<(Statement, Token)>)
    ensures
        parsed_as(res, final(itr)@, parse_if_statement_spec(tk@, old(itr)@)),
    decreases measure(tk@, old(itr)@), 40nat,
{
    proof {
        lemma_advance_progress(tk@, itr@);
    }
    let tk1 = match_tk(itr, tk, Token::TkIf)?;
    proof {
        lemma_statement_progress(tk1@, itr@);
    }
    let ((guard, th), tk5) = parse_guarded_block(itr, tk1)?;
    let (el, tk6) = parse_else(itr, tk5)?;
    Ok((Statement::StIf(StIfData { guard, th: Box::new(th), el: Box::new(el) }), tk6))
}

/// Parses `while ( expression ) block`.
fn parse_while_statement(itr: &mut ByteStream, tk: Token) -> (res: JsishResult<
    (Statement, Token),
>)
    ensures
        parsed_as(res, final(itr)@, parse_while_statement_spec(tk@, old(itr)@)),
    decreases measure(tk@, old(itr)@), 40nat,
{
    proof {
        lemma_advance_progress(tk@, itr@);
    }
    let tk1 = match_tk(itr, tk, Token::TkWhile)?;
    let ((guard, th), tk5) = parse_guarded_block(itr, tk1)?;
    Ok((Statement::StWhile(StWhileData { guard, body: Box::new(th) }), tk5))
}

/// Parses one statement, chosen by the current token `tk`, from the stream
/// that stands behind that token.
///
/// The statement, the new current token and the stream afterwards are
/// exactly those of [`parse_statement_spec`]; each error comes on the inputs
/// on which `parse_statement_spec` names it.
pub fn parse_statement(itr: &mut ByteStream, tk: Token) -> (res: JsishResult<(Statement, Token)>)
    ensures
        parsed_as(res, final(itr)@, parse_statement_spec(tk@, old(itr)@)),
    decreases measure(tk@, old(itr)@), 230nat,
{
    if matches!(tk, Token::TkPrint) {
        parse_print_statement(itr, tk)
    } else if matches!(tk, Token::TkLbrace) {
        parse_block_statement(itr, tk)
    } else if matches!(tk, Token::TkIf) {
        parse_if_statement(itr, tk)
    } else if matches!(tk, Token::TkWhile) {
        parse_while_statement(itr, tk)
    } else if is_expression(&tk) {
        parse_expression_statement(itr, tk)
    } else {
        Err(JsishError::ExpectedStatement)
    }
}

/// Parses one declaration: `identifier`, and `= assignment` if an `=` follows.
fn parse_variable_element(itr: &mut ByteStream, tk: Token) -> (res: JsishResult<
    (Declaration, Token),
>)
    ensures
        parsed_as(res, final(itr)@, parse_variable_element_spec(tk@, old(itr)@)),
{
    let (id, tk1) = match_id(itr, tk)?;
    if matches!(tk1, Token::TkAssign) {
        let tk2 = match_tk(itr, tk1, Token::TkAssign)?;
        let (src, tk3) = parse_assignment_expression(itr, tk2)?;
        Ok((Declaration::DeclInit(DeclInitData { id, src: Box::new(src) }), tk3))
    } else {
        Ok((Declaration::DeclId(id), tk1))
    }
}

/// Parses `, declaration` as long as the current token is a comma.
#[verifier::loop_isolation(false)]
fn parse_comma_repetition(itr: &mut ByteStream, tk: Token) -> (res: JsishResult<
    (Vec<Declaration>, Token),
>)
    ensures
        parsed_declarations_as(res, final(itr)@, parse_comma_repetition_spec(tk@, old(itr)@)),
{
    let ghost goal = parse_comma_repetition_spec(tk@, itr@);
    let mut elems: Vec<Declaration> = Vec::new();
    let mut tk_cursor = tk;
    proof {
        if let Ok((items, t, r)) = goal {
            assert(declaration_views(elems@) + items =~= items);
        }
    }
    while matches!(tk_cursor, Token::TkComma)
        invariant
            goal == with_front(
                declaration_views(elems@),
                parse_comma_repetition_spec(tk_cursor@, itr@),
            ),
        decreases measure(tk_cursor@, itr@),
    {
        let ghost front = declaration_views(elems@);
        let ghost tkc = tk_cursor@;
        let ghost sc = itr@;
        proof {
            lemma_advance_progress(tkc, sc);
        }
        let tk1 = match next_token(itr) {
            Ok(t) => t,
            Err(e) => {
                return Err(e);
            },
        };
        proof {
            lemma_variable_element_progress(tk1@, itr@);
        }
        let (elem, tk_temp) = match parse_variable_element(itr, tk1) {
            Ok(p) => p,
            Err(e) => {
                return Err(e);
            },
        };
        elems.push(elem);
        tk_cursor = tk_temp;
        proof {
            assert(declaration_views(elems@) =~= front.push(elem@));
            if let Ok((items, t, r)) = parse_comma_repetition_spec(tk_cursor@, itr@) {
                assert(front.push(elem@) + items =~= front + (seq![elem@] + items));
            }
        }
    }
    proof {
        assert(declaration_views(elems@) + Seq::<DeclarationView>::empty() =~= declaration_views(
            elems@,
        ));
    }
    Ok((elems, tk_cursor))
}

/// Parses `var declaration (, declaration)* ;`.
fn parse_variable_elements(itr: &mut ByteStream, tk: Token) -> (res: JsishResult<
    (Vec<Declaration>, Token),
>)
    ensures
        parsed_declarations_as(res, final(itr)@, parse_variable_elements_spec(tk@, old(itr)@)),
{
    let tk1 = match_tk(itr, tk, Token::TkVar)?;
    let (first_decl, tk2) = parse_variable_element(itr, tk1)?;
    let (mut cons_decl, tk3) = parse_comma_repetition(itr, tk2)?;
    let tk4 = match_tk(itr, tk3, Token::TkSemi)?;
    let ghost rest = declaration_views(cons_decl@);
    let ghost first = first_decl@;
    cons_decl.insert(0, first_decl);
    proof {
        assert(declaration_views(cons_decl@) =~= seq![first] + rest);
    }
    Ok((cons_decl, tk4))
}

/// Parses a top-level element: a `var` declaration list or a statement.
fn parse_source_element(itr: &mut ByteStream, tk: Token) -> (res: JsishResult<
    (SourceElement, Token),
>)
    ensures
        parsed_as(res, final(itr)@, parse_source_element_spec(tk@, old(itr)@)),
{
    if matches!(tk, Token::TkVar) {
        let (decl, tk1) = parse_variable_elements(itr, tk)?;
        Ok((SourceElement::VarDecl(decl), tk1))
    } else {
        let (stmt, tk1) = parse_statement(itr, tk)?;
        Ok((SourceElement::Stmt(stmt), tk1))
    }
}

/// Parses a whole program: top-level elements up to the end of the input.
#[verifier::loop_isolation(false)]
fn parse_program(itr: &mut ByteStream, tk: Token) -> (res: JsishResult<(Program, Token)>)
    ensures
        parsed_as(res, final(itr)@, parse_program_spec(tk@, old(itr)@)),
{
    let ghost goal = parse_source_elements_spec(tk@, itr@);
    let mut elems: Vec<SourceElement> = Vec::new();
    let mut tk_cursor = tk;
    proof {
        if let Ok((items, t, r)) = goal {
            assert(source_element_views(elems@) + items =~= items);
        }
    }
    while is_source_element(&tk_cursor)
        invariant
            goal == with_front(
                source_element_views(elems@),
                parse_source_elements_spec(tk_cursor@, itr@),
            ),
        decreases measure(tk_cursor@, itr@),
    {
        let ghost front = source_element_views(elems@);
        proof {
            lemma_source_element_progress(tk_cursor@, itr@);
        }
        let (elem, tk_temp) = match parse_source_element(itr, tk_cursor) {
            Ok(p) => p,
            Err(e) => {
                return Err(e);
            },
        };
        elems.push(elem);
        tk_cursor = tk_temp;
        proof {
            assert(source_element_views(elems@) =~= front.push(elem@));
            if let Ok((items, t, r)) = parse_source_elements_spec(tk_cursor@, itr@) {
                assert(front.push(elem@) + items =~= front + (seq![elem@] + items));
            }
        }
    }
    proof {
        assert(source_element_views(elems@) + Seq::<SourceElementView>::empty()
            =~= source_element_views(elems@));
    }
    let tk2 = match_eof(itr, tk_cursor)?;
    Ok((Program::Prog(elems), tk2))
}

/// Whether the result of an executable parse is what [`parse_spec`] gives.
pub open spec fn parse_result_is(
    res: JsishResult<Program>,
    expected: Result<ProgramView, JsishErrorView>,
) -> bool {
    match expected {
        Ok(p) => res is Ok && res->Ok_0@ == p,
        Err(e) => res is Err && res->Err_0@ == e,
    }
}

/// What is left of the input `s` when a program has been read from it, or
/// when the first error was met.
pub open spec fn left_after_parse(s: Seq<u8>) -> Seq<u8> {
    match advance(s) {
        Err((_, rest)) => rest,
        Ok((tk, s1)) => match parse_program_spec(tk, s1) {
            Err((_, rest)) => rest,
            Ok((_, _, rest)) => rest,
        },
    }
}

/// Parses the program that is left in the stream.
///
/// Succeeds exactly when the input is zero or more top-level elements and
/// nothing else; the result is then the tree of [`parse_spec`]. Otherwise
/// the result is the first lexical or syntax error, as `parse_spec` names
/// it. Either way the stream holds what [`left_after_parse`] says.
pub fn parse_stream(itr: &mut ByteStream) -> (res: JsishResult<Program>)
    ensures
        parse_result_is(res, parse_spec(old(itr)@)),
        final(itr)@ == left_after_parse(old(itr)@),
{
    let first_token = next_token(itr)?;
    let (prog, _) = parse_program(itr, first_token)?;
    Ok(prog)
}

/// Parses the source text `source`.
///
/// Succeeds exactly when the text is zero or more top-level elements and
/// nothing else; the result is then the tree of [`parse_spec`]. Otherwise
/// the result is the first lexical or syntax error, as `parse_spec` names it.
pub fn parse(source: Vec<u8>) -> (res: JsishResult<Program>)
    ensures
        parse_result_is(res, parse_spec(source@)),
{
    let mut fstr = ByteStream::new(source);
    parse_stream(&mut fstr)
}

} // verus!
