//! Printing and parsing are inverse to each other on the trees that the
//! parser builds: the text of such a tree parses back to the tree.
use vstd::prelude::*;
use vstd::utf8::*;
use crate::ast::{
    binary_symbol, DeclarationView, ExpressionView, ProgramView, SourceElementView, StatementView,
};
use crate::decimal::{decimal, lemma_decimal_digits_are_digits};
use crate::forms::{
    declaration_reads, lemma_form_declaration_init, lemma_form_declaration_plain,
    lemma_form_elements, lemma_form_initializer, lemma_form_more_declarations,
    lemma_form_no_elements, lemma_form_no_more_declarations, lemma_form_program,
    lemma_form_statement_element, lemma_form_var, more_declarations_read, source_element_reads,
    source_elements_read, expression_reads, guarded_reads, lemma_form_assignment, lemma_form_atom,
    lemma_form_binary, lemma_form_block, lemma_form_conditional, lemma_form_expression_statement,
    lemma_form_guarded, lemma_form_if, lemma_form_no_statements, lemma_form_parenthesized,
    lemma_form_prefix, lemma_form_print, lemma_form_statements, lemma_form_while, lemma_form_whole,
    opens_primary, statement_reads, statements_read, unary_reads,
};
use crate::lexemes::{
    lemma_lex_number, lemma_lex_single, lemma_lex_string, lemma_lex_whitespace,
    lemma_lex_without_eq, lemma_lex_word,
};
use crate::parser::{advance, atom, parse_spec, starts_source_element, starts_statement, stepped};
use crate::pieces::lemma_lex_keyword_var;
use crate::printer::{
    render_declaration, render_more_declarations, render_program, render_source_element,
    render_source_elements,
};
use crate::shapes::{
    lemma_shape_declaration, lemma_shape_more_declarations, lemma_shape_source_elements,
    lemma_shape_var, well_formed_declaration, well_formed_declarations, well_formed_program,
    well_formed_source_element, well_formed_source_elements,
};
use crate::built::lemma_parsed_is_well_formed;
use crate::pieces::{
    lemma_lex_binary_symbol, lemma_lex_keyword_else, lemma_lex_keyword_false, lemma_lex_keyword_if,
    lemma_lex_keyword_print, lemma_lex_keyword_true, lemma_lex_keyword_undefined,
    lemma_lex_keyword_while, lemma_lex_prefix,
};
use crate::printer::{render_expression, render_prefix, render_statement, render_statements, text};
use crate::shapes::{
    guarded_text, lemma_shape_assignment, lemma_shape_binary, lemma_shape_block,
    lemma_shape_conditional, lemma_shape_expression_statement, lemma_shape_if, lemma_shape_prefix,
    lemma_shape_print, lemma_shape_statements, lemma_shape_string, lemma_shape_while,
    well_formed_expression, well_formed_statement, well_formed_statements,
};
use crate::tokenizer::{lex, TokenView};
use crate::types::JsishErrorView;

verus! {

/// Whether the tokenizer finds a token at the start of `s`.
pub open spec fn readable(s: Seq<u8>) -> bool {
    lex(s).0 is Ok
}

/// The token at the start of `s`.
pub open spec fn token_at(s: Seq<u8>) -> TokenView {
    lex(s).0->Ok_0
}

/// The input behind the token at the start of `s`.
pub open spec fn behind(s: Seq<u8>) -> Seq<u8> {
    lex(s).1
}

/// Whether `t` starts with one of the characters that the pretty-printer
/// writes behind an expression: a space, `)`, `;` or `,`.
pub open spec fn ends_token(t: Seq<u8>) -> bool {
    t.len() > 0 && (t[0] == 0x20 || t[0] == 0x29 || t[0] == 0x3b || t[0] == 0x2c)
}

/// Whether the text of `e`, followed by `t`, reads back as `e` and leaves
/// the parser at the start of `t`.
pub open spec fn reads_back(e: ExpressionView, t: Seq<u8>) -> bool {
    let x = render_expression(e) + t;
    &&& readable(x)
    &&& x.len() > 0
    &&& x[0] != 0x3d
    &&& opens_primary(token_at(x))
    &&& unary_reads(token_at(x), behind(x), e, token_at(t), behind(t))
}

/// A literal or an identifier reads back.
proof fn lemma_atom_text(e: ExpressionView, t: Seq<u8>)
    requires
        well_formed_expression(e),
        e is Num || e is Str || e is True || e is False || e is Undefined || e is Id,
        ends_token(t),
        readable(t),
    ensures
        reads_back(e, t),
{
    let x = render_expression(e) + t;
    match e {
        ExpressionView::Num(n) => {
            lemma_lex_number(n, t);
            lemma_decimal_digits_are_digits(n as nat);
            let d = decimal(n as int);
            assert(0x30 <= d[0] <= 0x39);
            assert(x[0] == d[0]);
        },
        ExpressionView::Str(c) => {
            let b = encode_utf8(c);
            encode_utf8_valid_utf8(c);
            encode_utf8_decode_utf8(c);
            lemma_shape_string(c, t);
            lemma_lex_string(b, t);
            assert(x[0] == 0x22u8);
        },
        ExpressionView::True => {
            lemma_lex_keyword_true(t);
            assert(x[0] == text("true")[0]);
        },
        ExpressionView::False => {
            lemma_lex_keyword_false(t);
            assert(x[0] == text("false")[0]);
        },
        ExpressionView::Undefined => {
            lemma_lex_keyword_undefined(t);
            assert(x[0] == text("undefined")[0]);
        },
        ExpressionView::Id(name) => {
            let w = encode_utf8(name);
            encode_utf8_decode_utf8(name);
            lemma_lex_word(w, t);
            assert(x[0] == w[0]);
        },
        _ => {},
    }
    assert(behind(x) == t);
    assert(atom(token_at(x)) == Some(e));
    lemma_form_atom(token_at(x), t, e, token_at(t), behind(t));
}

/// A binary expression reads back if its operands do.
proof fn lemma_binary_text(e: ExpressionView, t: Seq<u8>)
    requires
        well_formed_expression(e),
        e is Binary,
        ends_token(t),
        readable(t),
    ensures
        reads_back(e, t),
    decreases e, 0nat,
{
    if let ExpressionView::Binary(opr, lft, rht) = e {
        let l = *lft;
        let r = *rht;
        let a5 = seq![0x29u8] + t;
        let a4 = render_expression(r) + a5;
        let a3 = seq![0x20u8] + a4;
        let a2 = encode_utf8(binary_symbol(opr)) + a3;
        let a1 = seq![0x20u8] + a2;
        let a0 = render_expression(l) + a1;
        let x = seq![0x28u8] + a0;
        lemma_shape_binary(opr, l, r, t);
        lemma_lex_single(0x29u8, t);
        lemma_expression_text(r, a5);
        lemma_lex_whitespace(0x20u8, a4);
        lemma_lex_binary_symbol(opr, a3);
        lemma_lex_whitespace(0x20u8, a2);
        lemma_expression_text(l, a1);
        lemma_form_binary(
            opr,
            token_at(a0),
            behind(a0),
            l,
            a3,
            token_at(a4),
            behind(a4),
            r,
            TokenView::Rparen,
            t,
        );
        lemma_lex_single(0x28u8, a0);
        lemma_form_parenthesized(a0, token_at(a0), behind(a0), e, t, token_at(t), behind(t));
        assert(x[0] == 0x28u8);
    }
}

/// A prefix expression reads back if its operand does.
proof fn lemma_prefix_text(e: ExpressionView, t: Seq<u8>)
    requires
        well_formed_expression(e),
        e is Unary,
        ends_token(t),
        readable(t),
    ensures
        reads_back(e, t),
    decreases e, 0nat,
{
    if let ExpressionView::Unary(opr, opnd) = e {
        let o = *opnd;
        let a2 = seq![0x29u8] + t;
        let a1 = render_expression(o) + a2;
        let a0 = render_prefix(opr) + a1;
        let x = seq![0x28u8] + a0;
        lemma_shape_prefix(opr, o, t);
        lemma_lex_single(0x29u8, t);
        lemma_expression_text(o, a2);
        lemma_lex_prefix(opr, a1);
        lemma_form_prefix(
            opr,
            token_at(a0),
            behind(a0),
            token_at(a1),
            behind(a1),
            o,
            TokenView::Rparen,
            t,
        );
        lemma_lex_single(0x28u8, a0);
        lemma_form_parenthesized(a0, token_at(a0), behind(a0), e, t, token_at(t), behind(t));
        assert(x[0] == 0x28u8);
    }
}

/// A conditional expression reads back if its parts do.
proof fn lemma_conditional_text(e: ExpressionView, t: Seq<u8>)
    requires
        well_formed_expression(e),
        e is Cond,
        ends_token(t),
        readable(t),
    ensures
        reads_back(e, t),
    decreases e, 0nat,
{
    if let ExpressionView::Cond(guard, then_exp, else_exp) = e {
        let g = *guard;
        let a = *then_exp;
        let b = *else_exp;
        let a9 = seq![0x29u8] + t;
        let a8 = render_expression(b) + a9;
        let a7 = seq![0x20u8] + a8;
        let a6 = seq![0x3au8] + a7;
        let a5 = seq![0x20u8] + a6;
        let a4 = render_expression(a) + a5;
        let a3 = seq![0x20u8] + a4;
        let a2 = seq![0x3fu8] + a3;
        let a1 = seq![0x20u8] + a2;
        let a0 = render_expression(g) + a1;
        let x = seq![0x28u8] + a0;
        lemma_shape_conditional(g, a, b, t);
        lemma_lex_single(0x29u8, t);
        lemma_expression_text(b, a9);
        lemma_lex_whitespace(0x20u8, a8);
        lemma_lex_single(0x3au8, a7);
        lemma_lex_whitespace(0x20u8, a6);
        lemma_expression_text(a, a5);
        lemma_lex_whitespace(0x20u8, a4);
        lemma_lex_single(0x3fu8, a3);
        lemma_lex_whitespace(0x20u8, a2);
        lemma_expression_text(g, a1);
        lemma_form_conditional(
            token_at(a0),
            behind(a0),
            g,
            a3,
            token_at(a4),
            behind(a4),
            a,
            a7,
            token_at(a8),
            behind(a8),
            b,
            TokenView::Rparen,
            t,
        );
        lemma_lex_single(0x28u8, a0);
        lemma_form_parenthesized(a0, token_at(a0), behind(a0), e, t, token_at(t), behind(t));
        assert(x[0] == 0x28u8);
    }
}

/// An assignment reads back if its right side does.
proof fn lemma_assignment_text(e: ExpressionView, t: Seq<u8>)
    requires
        well_formed_expression(e),
        e is Assign,
        ends_token(t),
        readable(t),
    ensures
        reads_back(e, t),
    decreases e, 0nat,
{
    if let ExpressionView::Assign(lft, rht) = e {
        let l = *lft;
        let r = *rht;
        let a5 = seq![0x29u8] + t;
        let a4 = render_expression(r) + a5;
        let a3 = seq![0x20u8] + a4;
        let a2 = seq![0x3du8] + a3;
        let a1 = seq![0x20u8] + a2;
        let a0 = render_expression(l) + a1;
        let x = seq![0x28u8] + a0;
        lemma_shape_assignment(l, r, t);
        lemma_lex_single(0x29u8, t);
        lemma_expression_text(r, a5);
        lemma_lex_whitespace(0x20u8, a4);
        lemma_lex_without_eq(0x3du8, a3);
        lemma_lex_whitespace(0x20u8, a2);
        lemma_expression_text(l, a1);
        lemma_form_assignment(
            token_at(a0),
            behind(a0),
            l->Id_0,
            a3,
            token_at(a4),
            behind(a4),
            r,
            TokenView::Rparen,
            t,
        );
        lemma_lex_single(0x28u8, a0);
        lemma_form_parenthesized(a0, token_at(a0), behind(a0), e, t, token_at(t), behind(t));
        assert(x[0] == 0x28u8);
    }
}

/// The text of a well-formed expression, followed by one of the characters
/// that the pretty-printer writes behind an expression, reads back as the
/// expression and leaves the parser at what follows.
pub proof fn lemma_expression_text(e: ExpressionView, t: Seq<u8>)
    requires
        well_formed_expression(e),
        ends_token(t),
        readable(t),
    ensures
        reads_back(e, t),
    decreases e, 1nat,
{
    match e {
        ExpressionView::Binary(_, _, _) => lemma_binary_text(e, t),
        ExpressionView::Unary(_, _) => lemma_prefix_text(e, t),
        ExpressionView::Cond(_, _, _) => lemma_conditional_text(e, t),
        ExpressionView::Assign(_, _) => lemma_assignment_text(e, t),
        _ => lemma_atom_text(e, t),
    }
}

/// The text of an expression in front of `)` or `;` reads back as a whole
/// expression.
pub proof fn lemma_whole_expression_text(e: ExpressionView, closer: u8, t: Seq<u8>)
    requires
        well_formed_expression(e),
        closer == 0x29 || closer == 0x3b,
    ensures
        ({
            let x = render_expression(e) + (seq![closer] + t);
            let tk = if closer == 0x29 {
                TokenView::Rparen
            } else {
                TokenView::Semi
            };
            &&& readable(x)
            &&& opens_primary(token_at(x))
            &&& expression_reads(token_at(x), behind(x), e, tk, t)
        }),
{
    let a = seq![closer] + t;
    let x = render_expression(e) + a;
    lemma_lex_single(closer, t);
    lemma_expression_text(e, a);
    lemma_form_whole(token_at(x), behind(x), e, token_at(a), t);
}

/// Whether the text of `s`, followed by `t`, reads back as `s` and leaves
/// the parser at the start of `t`.
pub open spec fn statement_reads_back(s: StatementView, t: Seq<u8>) -> bool {
    let x = render_statement(s) + t;
    &&& readable(x)
    &&& statement_reads(token_at(x), behind(x), s, token_at(t), behind(t))
}

/// Whether the text of the statements `stmts`, followed by `t`, reads back
/// as them and leaves the parser at the start of `t`.
pub open spec fn statements_read_back(stmts: Seq<StatementView>, t: Seq<u8>) -> bool {
    let x = render_statements(stmts) + t;
    &&& readable(x)
    &&& statements_read(token_at(x), behind(x), stmts, token_at(t), behind(t))
}

/// An expression statement reads back.
proof fn lemma_expression_statement_text(s: StatementView, t: Seq<u8>)
    requires
        well_formed_statement(s),
        s is Exp,
        readable(t),
    ensures
        statement_reads_back(s, t),
{
    if let StatementView::Exp(e) = s {
        let x = render_expression(e) + (seq![0x3bu8] + t);
        lemma_shape_expression_statement(e, t);
        lemma_whole_expression_text(e, 0x3bu8, t);
        lemma_form_expression_statement(token_at(x), behind(x), e, t, token_at(t), behind(t));
    }
}

/// A `print` statement reads back.
proof fn lemma_print_statement_text(s: StatementView, t: Seq<u8>)
    requires
        well_formed_statement(s),
        s is Print,
        readable(t),
    ensures
        statement_reads_back(s, t),
{
    if let StatementView::Print(e) = s {
        let a1 = render_expression(e) + (seq![0x3bu8] + t);
        let a0 = seq![0x20u8] + a1;
        lemma_shape_print(e, t);
        lemma_lex_keyword_print(a0);
        lemma_lex_whitespace(0x20u8, a1);
        lemma_whole_expression_text(e, 0x3bu8, t);
        lemma_form_print(a0, token_at(a1), behind(a1), e, t, token_at(t), behind(t));
    }
}

/// A block reads back if its statements do.
proof fn lemma_block_text(s: StatementView, t: Seq<u8>)
    requires
        well_formed_statement(s),
        s is Block,
        readable(t),
    ensures
        statement_reads_back(s, t),
    decreases s, 0nat,
{
    if let StatementView::Block(stmts) = s {
        let a2 = seq![0x7du8] + t;
        let a1 = render_statements(stmts) + a2;
        let a0 = seq![0x0au8] + a1;
        lemma_shape_block(stmts, t);
        lemma_lex_single(0x7du8, t);
        lemma_statements_text(stmts, a2);
        lemma_lex_whitespace(0x0au8, a1);
        lemma_lex_single(0x7bu8, a0);
        lemma_form_block(a0, token_at(a1), behind(a1), stmts, t, token_at(t), behind(t));
    }
}

/// Whether `t` starts with a space.
pub open spec fn starts_with_space(t: Seq<u8>) -> bool {
    t.len() > 0 && t[0] == 0x20
}

/// The text behind the keyword of `if` and of `while` reads back as a guard
/// and a block, if the block reads back.
proof fn lemma_guarded_block_text(g: ExpressionView, body: StatementView, t: Seq<u8>)
    requires
        well_formed_expression(g),
        body is Block,
        readable(t),
        statement_reads_back(body, t),
    ensures
        ({
            let x = guarded_text(g, body, t);
            &&& starts_with_space(x)
            &&& advance(x) == stepped(TokenView::Lparen, behind(x))
            &&& guarded_reads(TokenView::Lparen, behind(x), g, body, token_at(t), behind(t))
        }),
{
    let a4 = render_statement(body) + t;
    let a3 = seq![0x20u8] + a4;
    let a1 = render_expression(g) + (seq![0x29u8] + a3);
    let a0 = seq![0x28u8] + a1;
    let x = seq![0x20u8] + a0;
    assert(x == guarded_text(g, body, t));
    assert(x[0] == 0x20u8);
    lemma_lex_whitespace(0x20u8, a0);
    lemma_lex_single(0x28u8, a1);
    lemma_whole_expression_text(g, 0x29u8, a3);
    lemma_lex_whitespace(0x20u8, a4);
    lemma_form_guarded(
        a1,
        token_at(a1),
        behind(a1),
        g,
        a3,
        token_at(a4),
        behind(a4),
        body,
        token_at(t),
        behind(t),
    );
}

/// A `while` statement reads back if its body does.
proof fn lemma_while_text(s: StatementView, t: Seq<u8>)
    requires
        well_formed_statement(s),
        s is While,
        readable(t),
    ensures
        statement_reads_back(s, t),
    decreases s, 0nat,
{
    if let StatementView::While(g, body) = s {
        let a0 = guarded_text(g, *body, t);
        lemma_shape_while(g, *body, t);
        lemma_statement_text(*body, t);
        lemma_guarded_block_text(g, *body, t);
        lemma_lex_keyword_while(a0);
        lemma_form_while(a0, behind(a0), g, *body, token_at(t), behind(t));
    }
}

/// An `if` statement reads back if its branches do.
proof fn lemma_if_text(s: StatementView, t: Seq<u8>)
    requires
        well_formed_statement(s),
        s is If,
        readable(t),
    ensures
        statement_reads_back(s, t),
    decreases s, 0nat,
{
    if let StatementView::If(g, th, el) = s {
        let b3 = render_statement(*el) + t;
        let b2 = seq![0x20u8] + b3;
        let b1 = text("else") + b2;
        let b0 = seq![0x20u8] + b1;
        let a0 = guarded_text(g, *th, b0);
        lemma_shape_if(g, *th, *el, t);
        lemma_statement_text(*el, t);
        lemma_lex_whitespace(0x20u8, b3);
        lemma_lex_keyword_else(b2);
        lemma_lex_whitespace(0x20u8, b1);
        lemma_statement_text(*th, b0);
        lemma_guarded_block_text(g, *th, b0);
        lemma_lex_keyword_if(a0);
        lemma_form_if(
            a0,
            behind(a0),
            g,
            *th,
            b2,
            token_at(b3),
            behind(b3),
            *el,
            token_at(t),
            behind(t),
        );
    }
}

/// The text of a well-formed statement, followed by any readable input,
/// reads back as the statement and leaves the parser at what follows.
pub proof fn lemma_statement_text(s: StatementView, t: Seq<u8>)
    requires
        well_formed_statement(s),
        readable(t),
    ensures
        statement_reads_back(s, t),
    decreases s, 1nat,
{
    match s {
        StatementView::Exp(_) => lemma_expression_statement_text(s, t),
        StatementView::Print(_) => lemma_print_statement_text(s, t),
        StatementView::Block(_) => lemma_block_text(s, t),
        StatementView::If(_, _, _) => lemma_if_text(s, t),
        StatementView::While(_, _) => lemma_while_text(s, t),
    }
}

/// The text of well-formed statements, followed by input that starts no
/// statement, reads back as the statements.
pub proof fn lemma_statements_text(stmts: Seq<StatementView>, t: Seq<u8>)
    requires
        well_formed_statements(stmts),
        readable(t),
        !starts_statement(token_at(t)),
    ensures
        statements_read_back(stmts, t),
    decreases stmts, 2nat,
{
    lemma_shape_statements(stmts, t);
    if stmts.len() == 0 {
        assert(stmts =~= Seq::<StatementView>::empty());
        lemma_form_no_statements(token_at(t), behind(t));
    } else {
        let rest = stmts.drop_first();
        let a1 = render_statements(rest) + t;
        let a0 = seq![0x0au8] + a1;
        let x = render_statement(stmts[0]) + a0;
        lemma_statements_text(rest, t);
        lemma_lex_whitespace(0x0au8, a1);
        lemma_statement_text(stmts[0], a0);
        lemma_form_statements(
            token_at(x),
            behind(x),
            stmts[0],
            token_at(a1),
            behind(a1),
            rest,
            token_at(t),
            behind(t),
        );
        assert(seq![stmts[0]] + rest =~= stmts);
    }
}

/// Whether `t` starts with `,` or `;`: what the pretty-printer writes
/// behind a declaration.
pub open spec fn ends_declaration(t: Seq<u8>) -> bool {
    t.len() > 0 && (t[0] == 0x2c || t[0] == 0x3b)
}

/// What stands at the start of an input that starts with `,` or `;`.
proof fn lemma_declaration_end(t: Seq<u8>)
    requires
        ends_declaration(t),
    ensures
        readable(t),
        token_at(t) == (if t[0] == 0x2c {
            TokenView::Comma
        } else {
            TokenView::Semi
        }),
        behind(t) == t.drop_first(),
        ends_token(t),
{
    assert(t =~= seq![t[0]] + t.drop_first());
    lemma_lex_single(t[0], t.drop_first());
}

/// Whether the text of `d`, followed by `t`, reads back as `d` and leaves
/// the parser at the start of `t`.
pub open spec fn declaration_reads_back(d: DeclarationView, t: Seq<u8>) -> bool {
    let x = render_declaration(d) + t;
    &&& readable(x)
    &&& declaration_reads(token_at(x), behind(x), d, token_at(t), behind(t))
}

/// The text of a well-formed declaration, in front of `,` or `;`, reads
/// back as the declaration.
pub proof fn lemma_declaration_text(d: DeclarationView, t: Seq<u8>)
    requires
        well_formed_declaration(d),
        ends_declaration(t),
    ensures
        declaration_reads_back(d, t),
{
    lemma_declaration_end(t);
    lemma_shape_declaration(d, t);
    match d {
        DeclarationView::Id(name) => {
            let w = encode_utf8(name);
            encode_utf8_decode_utf8(name);
            lemma_lex_word(w, t);
            lemma_form_declaration_plain(name, t, token_at(t), behind(t));
        },
        DeclarationView::Init(name, e) => {
            let w = encode_utf8(name);
            let a4 = render_expression(e) + t;
            let a3 = seq![0x20u8] + a4;
            let a2 = seq![0x3du8] + a3;
            let a1 = seq![0x20u8] + a2;
            encode_utf8_decode_utf8(name);
            lemma_lex_word(w, a1);
            lemma_lex_whitespace(0x20u8, a2);
            lemma_lex_without_eq(0x3du8, a3);
            lemma_lex_whitespace(0x20u8, a4);
            lemma_expression_text(e, t);
            lemma_form_initializer(token_at(a4), behind(a4), e, token_at(t), behind(t));
            lemma_form_declaration_init(
                name,
                a1,
                a3,
                token_at(a4),
                behind(a4),
                e,
                token_at(t),
                behind(t),
            );
        },
    }
}

/// The text of the rest of a well-formed declaration list, in front of `;`,
/// reads back as those declarations.
pub proof fn lemma_more_declarations_text(decls: Seq<DeclarationView>, t: Seq<u8>)
    requires
        well_formed_declarations(decls),
    ensures
        ({
            let end = seq![0x3bu8] + t;
            let x = render_more_declarations(decls) + end;
            &&& ends_declaration(x)
            &&& more_declarations_read(token_at(x), behind(x), decls, TokenView::Semi, t)
        }),
    decreases decls.len(),
{
    let end = seq![0x3bu8] + t;
    let x = render_more_declarations(decls) + end;
    lemma_shape_more_declarations(decls, end);
    lemma_lex_single(0x3bu8, t);
    if decls.len() == 0 {
        assert(decls =~= Seq::<DeclarationView>::empty());
        assert(x[0] == 0x3bu8);
        lemma_form_no_more_declarations(TokenView::Semi, t);
    } else {
        let rest = decls.drop_first();
        let a2 = render_more_declarations(rest) + end;
        let a1 = render_declaration(decls[0]) + a2;
        let a0 = seq![0x20u8] + a1;
        lemma_more_declarations_text(rest, t);
        lemma_declaration_text(decls[0], a2);
        lemma_lex_whitespace(0x20u8, a1);
        lemma_lex_single(0x2cu8, a0);
        assert(x[0] == 0x2cu8);
        lemma_form_more_declarations(
            a0,
            token_at(a1),
            behind(a1),
            decls[0],
            token_at(a2),
            behind(a2),
            rest,
            TokenView::Semi,
            t,
        );
        assert(seq![decls[0]] + rest =~= decls);
    }
}

/// Whether the text of the top-level element `e`, followed by `t`, reads
/// back as `e` and leaves the parser at the start of `t`.
pub open spec fn source_element_reads_back(e: SourceElementView, t: Seq<u8>) -> bool {
    let x = render_source_element(e) + t;
    &&& readable(x)
    &&& source_element_reads(token_at(x), behind(x), e, token_at(t), behind(t))
}

/// The text of a well-formed top-level element, followed by any readable
/// input, reads back as the element.
pub proof fn lemma_source_element_text(e: SourceElementView, t: Seq<u8>)
    requires
        well_formed_source_element(e),
        readable(t),
    ensures
        source_element_reads_back(e, t),
{
    match e {
        SourceElementView::Stmt(st) => {
            let x = render_statement(st) + t;
            lemma_statement_text(st, t);
            lemma_form_statement_element(token_at(x), behind(x), st, token_at(t), behind(t));
        },
        SourceElementView::VarDecl(decls) => {
            let rest = decls.drop_first();
            let end = seq![0x3bu8] + t;
            let a2 = render_more_declarations(rest) + end;
            let a1 = render_declaration(decls[0]) + a2;
            let a0 = seq![0x20u8] + a1;
            lemma_shape_var(decls, t);
            lemma_more_declarations_text(rest, t);
            lemma_declaration_text(decls[0], a2);
            lemma_lex_whitespace(0x20u8, a1);
            lemma_lex_keyword_var(a0);
            lemma_form_var(
                a0,
                token_at(a1),
                behind(a1),
                decls[0],
                token_at(a2),
                behind(a2),
                rest,
                t,
                token_at(t),
                behind(t),
            );
            assert(seq![decls[0]] + rest =~= decls);
        },
    }
}

/// The text of well-formed top-level elements, followed by input that
/// starts no element, reads back as the elements.
pub proof fn lemma_source_elements_text(elems: Seq<SourceElementView>, t: Seq<u8>)
    requires
        well_formed_source_elements(elems),
        readable(t),
        !starts_source_element(token_at(t)),
    ensures
        ({
            let x = render_source_elements(elems) + t;
            &&& readable(x)
            &&& source_elements_read(token_at(x), behind(x), elems, token_at(t), behind(t))
        }),
    decreases elems.len(),
{
    lemma_shape_source_elements(elems, t);
    if elems.len() == 0 {
        assert(elems =~= Seq::<SourceElementView>::empty());
        lemma_form_no_elements(token_at(t), behind(t));
    } else {
        let rest = elems.drop_first();
        let a1 = render_source_elements(rest) + t;
        let a0 = seq![0x0au8] + a1;
        let x = render_source_element(elems[0]) + a0;
        lemma_source_elements_text(rest, t);
        lemma_lex_whitespace(0x0au8, a1);
        lemma_source_element_text(elems[0], a0);
        lemma_form_elements(
            token_at(x),
            behind(x),
            elems[0],
            token_at(a1),
            behind(a1),
            rest,
            token_at(t),
            behind(t),
        );
        assert(seq![elems[0]] + rest =~= elems);
    }
}

/// At the end of the input stands the end of the input, again and again.
proof fn lemma_lex_end()
    ensures
        lex(Seq::<u8>::empty()) == (
            Ok::<TokenView, JsishErrorView>(TokenView::Eof),
            Seq::<u8>::empty(),
        ),
{
    reveal(lex);
}

/// The text of a well-formed program parses back to the program.
pub proof fn lemma_render_then_parse(p: ProgramView)
    requires
        well_formed_program(p),
    ensures
        parse_spec(render_program(p)) == Ok::<ProgramView, JsishErrorView>(p),
{
    let end = Seq::<u8>::empty();
    let x = render_source_elements(p.elements) + end;
    lemma_lex_end();
    lemma_source_elements_text(p.elements, end);
    assert(x =~= render_program(p));
    lemma_form_program(x, token_at(x), behind(x), p.elements, end);
}

/// Printing and parsing are inverse to each other: the text that the
/// pretty-printer writes for the tree of any source that parses, parses
/// again, and to the same tree.
pub proof fn lemma_round_trip(source: Seq<u8>)
    ensures
        parse_spec(source) matches Ok(p) ==> parse_spec(render_program(p)) == Ok::<
            ProgramView,
            JsishErrorView,
        >(p),
{
    lemma_parsed_is_well_formed(source);
    if let Ok(p) = parse_spec(source) {
        lemma_render_then_parse(p);
    }
}

} // verus!
