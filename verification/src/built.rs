//! What the parser builds is well formed: numbers are not negative, names
//! are identifiers, only identifiers are assigned to, and the branches of
//! `if` and the body of `while` are blocks.
use vstd::prelude::*;
use vstd::utf8::*;
use crate::ast::{DeclarationView, ExpressionView, SourceElementView, StatementView};
use crate::chars::{is_alphabetic, is_alphanumeric};
use crate::lexemes::is_word;
use crate::parser::{
    advance, expect, level_height, level_operator, measure, moved, parse_assignment_expression_spec,
    parse_binary_expression_spec, parse_binary_rest_spec, parse_block_statement_spec,
    parse_comma_repetition_spec, parse_conditional_expression_spec, parse_else_spec,
    parse_expression_spec, parse_expression_statement_spec, parse_guarded_block_spec,
    parse_if_statement_spec, parse_operand_spec, parse_parenthesized_expression_spec,
    parse_primary_expression_spec, parse_print_statement_spec, parse_repetition_spec,
    parse_source_element_spec, parse_source_elements_spec, parse_spec, parse_statement_spec,
    parse_unary_expression_spec, parse_variable_element_spec, parse_while_statement_spec,
    prefix_operator, starts_source_element, starts_statement, BinaryLevel, Parsed,
};
use crate::shapes::{
    is_identifier_name, well_formed_declaration, well_formed_declarations, well_formed_expression,
    well_formed_program, well_formed_source_element, well_formed_source_elements,
    well_formed_statement, well_formed_statements,
};
use crate::tokenizer::{lemma_run_length, lex, run_length, skip_whitespace, CharClass, TokenView};

verus! {

/// Whether a token is one that the tokenizer gives: the name of an
/// identifier is a word and no keyword, and a number is not negative.
pub open spec fn well_formed_token(tk: TokenView) -> bool {
    match tk {
        TokenView::Id(name) => is_identifier_name(name),
        TokenView::Num(n) => n >= 0,
        _ => true,
    }
}

/// Every token that the tokenizer gives is well formed.
pub proof fn lemma_lex_well_formed(s: Seq<u8>)
    ensures
        lex(s).0 matches Ok(tk) ==> well_formed_token(tk),
{
    reveal(lex);
    let t = skip_whitespace(s);
    if t.len() > 0 {
        if is_alphabetic(t[0]) {
            let n = run_length(t, CharClass::Alphanumeric) as int;
            let w = t.take(n);
            lemma_run_length(t, CharClass::Alphanumeric);
            assert(CharClass::Alphanumeric.holds(t[0]));
            if valid_utf8(w) {
                let word = decode_utf8(w);
                decode_utf8_encode_utf8(w);
                assert forall|i: int| 0 <= i < w.len() implies is_alphanumeric(#[trigger] w[i]) by {
                    assert(CharClass::Alphanumeric.holds(t[i]));
                }
                assert(w[0] == t[0]);
                assert(is_word(encode_utf8(word)));
            }
        }
    }
}

/// A step gives a well-formed token.
pub proof fn lemma_advance_well_formed(s: Seq<u8>)
    ensures
        advance(s) matches Ok((tk, _)) ==> well_formed_token(tk),
{
    lemma_lex_well_formed(s);
}

/// Whether the result `p` of a production holds a well-formed expression
/// and a well-formed token.
pub open spec fn builds_expression(p: Parsed<ExpressionView>) -> bool {
    p matches Ok((e, tk, _)) ==> well_formed_expression(e) && well_formed_token(tk)
}

/// Whether the result `p` of a production holds a well-formed statement and
/// a well-formed token.
pub open spec fn builds_statement(p: Parsed<StatementView>) -> bool {
    p matches Ok((s, tk, _)) ==> well_formed_statement(s) && well_formed_token(tk)
}

/// A parenthesized expression that the parser builds is well formed.
pub proof fn lemma_parenthesized_built(tk: TokenView, s: Seq<u8>)
    requires
        well_formed_token(tk),
    ensures
        builds_expression(parse_parenthesized_expression_spec(tk, s)),
    decreases measure(tk, s), 0nat,
{
    if let Ok((tk1, s1)) = expect(tk, s, TokenView::Lparen) {
        lemma_advance_well_formed(s);
        if moved(tk1, s1, tk, s) {
            lemma_expression_built(tk1, s1);
            if let Ok((exp, tk2, s2)) = parse_expression_spec(tk1, s1) {
                lemma_advance_well_formed(s2);
            }
        }
    }
}

/// A primary expression that the parser builds is well formed.
pub proof fn lemma_primary_built(tk: TokenView, s: Seq<u8>)
    requires
        well_formed_token(tk),
    ensures
        builds_expression(parse_primary_expression_spec(tk, s)),
    decreases measure(tk, s), 1nat,
{
    lemma_advance_well_formed(s);
    if tk == TokenView::Lparen {
        lemma_parenthesized_built(tk, s);
    }
}

/// A prefix expression that the parser builds is well formed.
pub proof fn lemma_unary_built(tk: TokenView, s: Seq<u8>)
    requires
        well_formed_token(tk),
    ensures
        builds_expression(parse_unary_expression_spec(tk, s)),
    decreases measure(tk, s), 2nat,
{
    lemma_advance_well_formed(s);
    if prefix_operator(tk) is Some {
        if let Ok((tk1, s1)) = advance(s) {
            if moved(tk1, s1, tk, s) {
                lemma_unary_built(tk1, s1);
            }
        }
    } else {
        lemma_primary_built(tk, s);
    }
}

/// An operand that the parser builds is well formed.
pub proof fn lemma_operand_built(level: BinaryLevel, tk: TokenView, s: Seq<u8>)
    requires
        well_formed_token(tk),
    ensures
        builds_expression(parse_operand_spec(level, tk, s)),
    decreases measure(tk, s), 3 + 2 * level_height(level),
{
    match level {
        BinaryLevel::Multiplicative => lemma_unary_built(tk, s),
        BinaryLevel::Additive => lemma_binary_built(BinaryLevel::Multiplicative, tk, s),
        BinaryLevel::Relational => lemma_binary_built(BinaryLevel::Additive, tk, s),
        BinaryLevel::Equality => lemma_binary_built(BinaryLevel::Relational, tk, s),
        BinaryLevel::And => lemma_binary_built(BinaryLevel::Equality, tk, s),
        BinaryLevel::Or => lemma_binary_built(BinaryLevel::And, tk, s),
        BinaryLevel::Comma => lemma_assignment_built(tk, s),
    }
}

/// Operators and operands added to a well-formed left operand keep it well formed.
pub proof fn lemma_binary_rest_built(
    level: BinaryLevel,
    lft: ExpressionView,
    tk: TokenView,
    s: Seq<u8>,
)
    requires
        well_formed_expression(lft),
        well_formed_token(tk),
    ensures
        builds_expression(parse_binary_rest_spec(level, lft, tk, s)),
    decreases measure(tk, s), 0nat,
{
    if let Some(opr) = level_operator(level, tk) {
        lemma_advance_well_formed(s);
        if let Ok((tk2, s2)) = advance(s) {
            if moved(tk2, s2, tk, s) {
                lemma_operand_built(level, tk2, s2);
                if let Ok((rht, tk3, s3)) = parse_operand_spec(level, tk2, s2) {
                    if moved(tk3, s3, tk, s) {
                        lemma_binary_rest_built(
                            level,
                            ExpressionView::Binary(opr, Box::new(lft), Box::new(rht)),
                            tk3,
                            s3,
                        );
                    }
                }
            }
        }
    }
}

/// A chain of binary operators that the parser builds is well formed.
pub proof fn lemma_binary_built(level: BinaryLevel, tk: TokenView, s: Seq<u8>)
    requires
        well_formed_token(tk),
    ensures
        builds_expression(parse_binary_expression_spec(level, tk, s)),
    decreases measure(tk, s), 4 + 2 * level_height(level),
{
    lemma_operand_built(level, tk, s);
    if let Ok((lft, tk1, s1)) = parse_operand_spec(level, tk, s) {
        if moved(tk1, s1, tk, s) {
            lemma_binary_rest_built(level, lft, tk1, s1);
        }
    }
}

/// A conditional expression that the parser builds is well formed.
pub proof fn lemma_conditional_built(tk: TokenView, s: Seq<u8>)
    requires
        well_formed_token(tk),
    ensures
        builds_expression(parse_conditional_expression_spec(tk, s)),
    decreases measure(tk, s), 15nat,
{
    lemma_binary_built(BinaryLevel::Or, tk, s);
    if let Ok((guard, tk1, s1)) = parse_binary_expression_spec(BinaryLevel::Or, tk, s) {
        if tk1 == TokenView::Question {
            lemma_advance_well_formed(s1);
            if let Ok((tk2, s2)) = advance(s1) {
                if moved(tk2, s2, tk, s) {
                    lemma_assignment_built(tk2, s2);
                    if let Ok((then_exp, tk3, s3)) = parse_assignment_expression_spec(tk2, s2) {
                        lemma_advance_well_formed(s3);
                        if let Ok((tk4, s4)) = expect(tk3, s3, TokenView::Colon) {
                            if moved(tk4, s4, tk, s) {
                                lemma_assignment_built(tk4, s4);
                            }
                        }
                    }
                }
            }
        }
    }
}

/// An assignment expression that the parser builds is well formed.
pub proof fn lemma_assignment_built(tk: TokenView, s: Seq<u8>)
    requires
        well_formed_token(tk),
    ensures
        builds_expression(parse_assignment_expression_spec(tk, s)),
    decreases measure(tk, s), 16nat,
{
    lemma_conditional_built(tk, s);
    if let Ok((lhs, tk1, s1)) = parse_conditional_expression_spec(tk, s) {
        if tk1 == TokenView::Assign {
            lemma_advance_well_formed(s1);
            if let Ok((tk2, s2)) = advance(s1) {
                if moved(tk2, s2, tk, s) {
                    lemma_assignment_built(tk2, s2);
                }
            }
        }
    }
}

/// An expression that the parser builds is well formed.
pub proof fn lemma_expression_built(tk: TokenView, s: Seq<u8>)
    requires
        well_formed_token(tk),
    ensures
        builds_expression(parse_expression_spec(tk, s)),
    decreases measure(tk, s), 21nat,
{
    lemma_binary_built(BinaryLevel::Comma, tk, s);
}

/// A `print` statement that the parser builds is well formed.
pub proof fn lemma_print_built(tk: TokenView, s: Seq<u8>)
    requires
        well_formed_token(tk),
    ensures
        builds_statement(parse_print_statement_spec(tk, s)),
{
    lemma_advance_well_formed(s);
    if let Ok((tk1, s1)) = expect(tk, s, TokenView::Print) {
        lemma_expression_built(tk1, s1);
        if let Ok((exp, tk2, s2)) = parse_expression_spec(tk1, s1) {
            lemma_advance_well_formed(s2);
        }
    }
}

/// An expression statement that the parser builds is well formed.
pub proof fn lemma_expression_statement_built(tk: TokenView, s: Seq<u8>)
    requires
        well_formed_token(tk),
    ensures
        builds_statement(parse_expression_statement_spec(tk, s)),
{
    lemma_expression_built(tk, s);
    if let Ok((exp, tk1, s1)) = parse_expression_spec(tk, s) {
        lemma_advance_well_formed(s1);
    }
}

/// What the parser builds for a block is a well-formed block.
pub proof fn lemma_block_built(tk: TokenView, s: Seq<u8>)
    requires
        well_formed_token(tk),
    ensures
        builds_statement(parse_block_statement_spec(tk, s)),
        parse_block_statement_spec(tk, s) matches Ok((b, _, _)) ==> b is Block,
    decreases measure(tk, s), 2nat,
{
    lemma_advance_well_formed(s);
    if let Ok((tk1, s1)) = expect(tk, s, TokenView::Lbrace) {
        if moved(tk1, s1, tk, s) {
            lemma_repetition_built(tk1, s1);
            if let Ok((stmts, tk2, s2)) = parse_repetition_spec(tk1, s1) {
                lemma_advance_well_formed(s2);
            }
        }
    }
}

/// What the parser builds for an `else` branch, present or not, is a well-formed block.
pub proof fn lemma_else_built(tk: TokenView, s: Seq<u8>)
    requires
        well_formed_token(tk),
    ensures
        builds_statement(parse_else_spec(tk, s)),
        parse_else_spec(tk, s) matches Ok((b, _, _)) ==> b is Block,
    decreases measure(tk, s), 3nat,
{
    if tk == TokenView::Else {
        lemma_advance_well_formed(s);
        if let Ok((tk1, s1)) = advance(s) {
            if moved(tk1, s1, tk, s) {
                lemma_block_built(tk1, s1);
            }
        }
    } else {
        assert(well_formed_statements(Seq::<StatementView>::empty()));
    }
}

/// A guard and a body that the parser builds are well formed, and the body is a block.
pub proof fn lemma_guarded_built(tk: TokenView, s: Seq<u8>)
    requires
        well_formed_token(tk),
    ensures
        parse_guarded_block_spec(tk, s) matches Ok(((g, body), t, _)) ==> well_formed_expression(g)
            && well_formed_statement(body) && body is Block && well_formed_token(t),
    decreases measure(tk, s), 3nat,
{
    lemma_advance_well_formed(s);
    if let Ok((tk1, s1)) = expect(tk, s, TokenView::Lparen) {
        if moved(tk1, s1, tk, s) {
            lemma_expression_built(tk1, s1);
            if let Ok((guard, tk2, s2)) = parse_expression_spec(tk1, s1) {
                lemma_advance_well_formed(s2);
                if let Ok((tk3, s3)) = expect(tk2, s2, TokenView::Rparen) {
                    if moved(tk3, s3, tk, s) {
                        lemma_block_built(tk3, s3);
                    }
                }
            }
        }
    }
}

/// An `if` statement that the parser builds is well formed.
pub proof fn lemma_if_built(tk: TokenView, s: Seq<u8>)
    requires
        well_formed_token(tk),
    ensures
        builds_statement(parse_if_statement_spec(tk, s)),
    decreases measure(tk, s), 4nat,
{
    lemma_advance_well_formed(s);
    if let Ok((tk1, s1)) = expect(tk, s, TokenView::If) {
        if moved(tk1, s1, tk, s) {
            lemma_guarded_built(tk1, s1);
            if let Ok(((guard, th), tk2, s2)) = parse_guarded_block_spec(tk1, s1) {
                if moved(tk2, s2, tk, s) {
                    lemma_else_built(tk2, s2);
                }
            }
        }
    }
}

/// A `while` statement that the parser builds is well formed.
pub proof fn lemma_while_built(tk: TokenView, s: Seq<u8>)
    requires
        well_formed_token(tk),
    ensures
        builds_statement(parse_while_statement_spec(tk, s)),
    decreases measure(tk, s), 4nat,
{
    lemma_advance_well_formed(s);
    if let Ok((tk1, s1)) = expect(tk, s, TokenView::While) {
        if moved(tk1, s1, tk, s) {
            lemma_guarded_built(tk1, s1);
        }
    }
}

/// A statement that the parser builds is well formed.
pub proof fn lemma_statement_built(tk: TokenView, s: Seq<u8>)
    requires
        well_formed_token(tk),
    ensures
        builds_statement(parse_statement_spec(tk, s)),
    decreases measure(tk, s), 23nat,
{
    if tk == TokenView::Print {
        lemma_print_built(tk, s);
    } else if tk == TokenView::Lbrace {
        lemma_block_built(tk, s);
    } else if tk == TokenView::If {
        lemma_if_built(tk, s);
    } else if tk == TokenView::While {
        lemma_while_built(tk, s);
    } else {
        lemma_expression_statement_built(tk, s);
    }
}

/// The statements that the parser builds for a repetition are well formed.
pub proof fn lemma_repetition_built(tk: TokenView, s: Seq<u8>)
    requires
        well_formed_token(tk),
    ensures
        parse_repetition_spec(tk, s) matches Ok((stmts, t, _)) ==> well_formed_statements(stmts)
            && well_formed_token(t),
    decreases measure(tk, s), 24nat,
{
    if starts_statement(tk) {
        lemma_statement_built(tk, s);
        if let Ok((stmt, tk1, s1)) = parse_statement_spec(tk, s) {
            if moved(tk1, s1, tk, s) {
                lemma_repetition_built(tk1, s1);
                if let Ok((rest, tk2, s2)) = parse_repetition_spec(tk1, s1) {
                    let all = seq![stmt] + rest;
                    assert(all[0] == stmt);
                    assert(all.drop_first() =~= rest);
                }
            }
        }
    } else {
        assert(well_formed_statements(Seq::<StatementView>::empty()));
    }
}

/// A declaration that the parser builds is well formed.
pub proof fn lemma_variable_element_built(tk: TokenView, s: Seq<u8>)
    requires
        well_formed_token(tk),
    ensures
        parse_variable_element_spec(tk, s) matches Ok((d, t, _)) ==> well_formed_declaration(d)
            && well_formed_token(t),
{
    lemma_advance_well_formed(s);
    if let Ok((tk1, s1)) = advance(s) {
        lemma_advance_well_formed(s1);
        if let Ok((tk2, s2)) = advance(s1) {
            lemma_assignment_built(tk2, s2);
        }
    }
}

/// The declarations that the parser builds behind the first one are well formed.
pub proof fn lemma_comma_repetition_built(tk: TokenView, s: Seq<u8>)
    requires
        well_formed_token(tk),
    ensures
        parse_comma_repetition_spec(tk, s) matches Ok((decls, t, _)) ==> well_formed_declarations(
            decls,
        ) && well_formed_token(t),
    decreases measure(tk, s),
{
    if tk == TokenView::Comma {
        lemma_advance_well_formed(s);
        if let Ok((tk1, s1)) = advance(s) {
            lemma_variable_element_built(tk1, s1);
            if let Ok((decl, tk2, s2)) = parse_variable_element_spec(tk1, s1) {
                if moved(tk2, s2, tk, s) {
                    lemma_comma_repetition_built(tk2, s2);
                    if let Ok((rest, tk3, s3)) = parse_comma_repetition_spec(tk2, s2) {
                        let all = seq![decl] + rest;
                        assert(all[0] == decl);
                        assert(all.drop_first() =~= rest);
                    }
                }
            }
        }
    } else {
        assert(well_formed_declarations(Seq::<DeclarationView>::empty()));
    }
}

/// A top-level element that the parser builds is well formed.
pub proof fn lemma_source_element_built(tk: TokenView, s: Seq<u8>)
    requires
        well_formed_token(tk),
    ensures
        parse_source_element_spec(tk, s) matches Ok((e, t, _)) ==> well_formed_source_element(e)
            && well_formed_token(t),
{
    if tk == TokenView::Var {
        lemma_advance_well_formed(s);
        if let Ok((tk1, s1)) = expect(tk, s, TokenView::Var) {
            lemma_variable_element_built(tk1, s1);
            if let Ok((first_decl, tk2, s2)) = parse_variable_element_spec(tk1, s1) {
                lemma_comma_repetition_built(tk2, s2);
                if let Ok((cons_decl, tk3, s3)) = parse_comma_repetition_spec(tk2, s2) {
                    lemma_advance_well_formed(s3);
                    let all = seq![first_decl] + cons_decl;
                    assert(all[0] == first_decl);
                    assert(all.drop_first() =~= cons_decl);
                }
            }
        }
    } else {
        lemma_statement_built(tk, s);
    }
}

/// The top-level elements that the parser builds are well formed.
pub proof fn lemma_source_elements_built(tk: TokenView, s: Seq<u8>)
    requires
        well_formed_token(tk),
    ensures
        parse_source_elements_spec(tk, s) matches Ok((elems, t, _))
            ==> well_formed_source_elements(elems) && well_formed_token(t),
    decreases measure(tk, s),
{
    if starts_source_element(tk) {
        lemma_source_element_built(tk, s);
        if let Ok((elem, tk1, s1)) = parse_source_element_spec(tk, s) {
            if moved(tk1, s1, tk, s) {
                lemma_source_elements_built(tk1, s1);
                if let Ok((rest, tk2, s2)) = parse_source_elements_spec(tk1, s1) {
                    let all = seq![elem] + rest;
                    assert(all[0] == elem);
                    assert(all.drop_first() =~= rest);
                }
            }
        }
    } else {
        assert(well_formed_source_elements(Seq::<SourceElementView>::empty()));
    }
}

/// Every program that the parser builds is well formed.
pub proof fn lemma_parsed_is_well_formed(source: Seq<u8>)
    ensures
        parse_spec(source) matches Ok(p) ==> well_formed_program(p),
{
    lemma_advance_well_formed(source);
    if let Ok((tk, s1)) = advance(source) {
        lemma_source_elements_built(tk, s1);
    }
}

} // verus!
