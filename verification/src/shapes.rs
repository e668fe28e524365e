//! The trees that the parser can build, and the text of each form of tree,
//! piece by piece with what follows it.
use vstd::prelude::*;
use vstd::utf8::*;
use crate::ast::{
    binary_symbol, BinaryOperator, DeclarationView, ExpressionView, ProgramView, SourceElementView,
    StatementView, UnaryOperator,
};
use crate::lexemes::is_word;
use crate::pieces::{
    lemma_bytes_assign_spaced, lemma_bytes_close_space, lemma_bytes_colon_spaced,
    lemma_bytes_comma_space, lemma_bytes_else_spaced, lemma_bytes_if_open, lemma_bytes_lparen,
    lemma_bytes_newline, lemma_bytes_open_block, lemma_bytes_print_space,
    lemma_bytes_question_spaced, lemma_bytes_quote, lemma_bytes_rbrace, lemma_bytes_rparen,
    lemma_bytes_semi, lemma_bytes_space, lemma_bytes_var_space, lemma_bytes_while_open,
    lemma_lex_keyword_else, lemma_lex_keyword_if, lemma_lex_keyword_print, lemma_lex_keyword_var,
    lemma_lex_keyword_while,
};
use crate::printer::{
    escape_bytes, render_declaration, render_expression, render_more_declarations, render_prefix,
    render_source_element, render_source_elements, render_statement, render_statements, text,
};
use crate::tokenizer::{keyword_or_identifier, TokenView};

verus! {

/// Whether `name` can be written as an identifier: its text is a word and
/// no keyword.
pub open spec fn is_identifier_name(name: Seq<char>) -> bool {
    is_word(encode_utf8(name)) && keyword_or_identifier(name) == TokenView::Id(name)
}

/// Whether an expression is one that the parser can build: no number is
/// negative, every name is an identifier, and only identifiers are assigned to.
pub open spec fn well_formed_expression(e: ExpressionView) -> bool
    decreases e,
{
    match e {
        ExpressionView::Num(n) => n >= 0,
        ExpressionView::Str(_) => true,
        ExpressionView::True => true,
        ExpressionView::False => true,
        ExpressionView::Undefined => true,
        ExpressionView::Id(name) => is_identifier_name(name),
        ExpressionView::Binary(_, lft, rht) => well_formed_expression(*lft)
            && well_formed_expression(*rht),
        ExpressionView::Unary(_, opnd) => well_formed_expression(*opnd),
        ExpressionView::Cond(guard, then_exp, else_exp) => well_formed_expression(*guard)
            && well_formed_expression(*then_exp) && well_formed_expression(*else_exp),
        ExpressionView::Assign(lft, rht) => *lft is Id && well_formed_expression(*lft)
            && well_formed_expression(*rht),
    }
}

/// Whether a statement is one that the parser can build: its expressions
/// are well formed and the branches of `if` and the body of `while` are blocks.
pub open spec fn well_formed_statement(s: StatementView) -> bool
    decreases s,
{
    match s {
        StatementView::Exp(e) => well_formed_expression(e),
        StatementView::Print(e) => well_formed_expression(e),
        StatementView::Block(stmts) => well_formed_statements(stmts),
        StatementView::If(guard, th, el) => well_formed_expression(guard) && *th is Block && *el
            is Block && well_formed_statement(*th) && well_formed_statement(*el),
        StatementView::While(guard, body) => well_formed_expression(guard) && *body is Block
            && well_formed_statement(*body),
    }
}

/// Whether every statement of a sequence is well formed.
pub open spec fn well_formed_statements(stmts: Seq<StatementView>) -> bool
    decreases stmts,
{
    stmts.len() > 0 ==> well_formed_statement(stmts[0]) && well_formed_statements(
        stmts.drop_first(),
    )
}

/// Whether a declaration is one that the parser can build.
pub open spec fn well_formed_declaration(d: DeclarationView) -> bool {
    match d {
        DeclarationView::Id(id) => is_identifier_name(id),
        DeclarationView::Init(id, src) => is_identifier_name(id) && well_formed_expression(src),
    }
}

/// Whether every declaration of a sequence is well formed.
pub open spec fn well_formed_declarations(decls: Seq<DeclarationView>) -> bool
    decreases decls.len(),
{
    decls.len() > 0 ==> well_formed_declaration(decls[0]) && well_formed_declarations(
        decls.drop_first(),
    )
}

/// Whether a top-level element is one that the parser can build: a `var`
/// list declares at least one name.
pub open spec fn well_formed_source_element(e: SourceElementView) -> bool {
    match e {
        SourceElementView::Stmt(s) => well_formed_statement(s),
        SourceElementView::VarDecl(decls) => decls.len() > 0 && well_formed_declarations(decls),
    }
}

/// Whether every top-level element of a sequence is well formed.
pub open spec fn well_formed_source_elements(elems: Seq<SourceElementView>) -> bool
    decreases elems.len(),
{
    elems.len() > 0 ==> well_formed_source_element(elems[0]) && well_formed_source_elements(
        elems.drop_first(),
    )
}

/// Whether a program is one that the parser can build.
pub open spec fn well_formed_program(p: ProgramView) -> bool {
    well_formed_source_elements(p.elements)
}

/// The text of a string literal, piece by piece.
pub proof fn lemma_shape_string(c: Seq<char>, t: Seq<u8>)
    ensures
        render_expression(ExpressionView::Str(c)) + t == seq![0x22u8] + (escape_bytes(
            encode_utf8(c),
        ) + (seq![0x22u8] + t)),
{
    lemma_bytes_quote();
    assert(render_expression(ExpressionView::Str(c)) + t =~= seq![0x22u8] + (escape_bytes(
        encode_utf8(c),
    ) + (seq![0x22u8] + t)));
}

/// The text of a binary expression, piece by piece.
pub proof fn lemma_shape_binary(
    opr: BinaryOperator,
    l: ExpressionView,
    r: ExpressionView,
    t: Seq<u8>,
)
    ensures
        render_expression(ExpressionView::Binary(opr, Box::new(l), Box::new(r))) + t == seq![
            0x28u8,
        ] + (render_expression(l) + (seq![0x20u8] + (encode_utf8(binary_symbol(opr)) + (seq![
            0x20u8,
        ] + (render_expression(r) + (seq![0x29u8] + t)))))),
{
    lemma_bytes_lparen();
    lemma_bytes_space();
    lemma_bytes_rparen();
    assert(render_expression(ExpressionView::Binary(opr, Box::new(l), Box::new(r))) + t =~= seq![
        0x28u8,
    ] + (render_expression(l) + (seq![0x20u8] + (encode_utf8(binary_symbol(opr)) + (seq![0x20u8]
        + (render_expression(r) + (seq![0x29u8] + t)))))));
}

/// The text of a prefix expression, piece by piece.
pub proof fn lemma_shape_prefix(opr: UnaryOperator, x: ExpressionView, t: Seq<u8>)
    ensures
        render_expression(ExpressionView::Unary(opr, Box::new(x))) + t == seq![0x28u8] + (
        render_prefix(opr) + (render_expression(x) + (seq![0x29u8] + t))),
{
    lemma_bytes_lparen();
    lemma_bytes_rparen();
    assert(render_expression(ExpressionView::Unary(opr, Box::new(x))) + t =~= seq![0x28u8] + (
    render_prefix(opr) + (render_expression(x) + (seq![0x29u8] + t))));
}

/// The text of a conditional expression, piece by piece.
pub proof fn lemma_shape_conditional(
    g: ExpressionView,
    a: ExpressionView,
    b: ExpressionView,
    t: Seq<u8>,
)
    ensures
        render_expression(ExpressionView::Cond(Box::new(g), Box::new(a), Box::new(b))) + t
            == seq![0x28u8] + (render_expression(g) + (seq![0x20u8] + (seq![0x3fu8] + (seq![
            0x20u8,
        ] + (render_expression(a) + (seq![0x20u8] + (seq![0x3au8] + (seq![0x20u8] + (
        render_expression(b) + (seq![0x29u8] + t)))))))))),
{
    lemma_bytes_lparen();
    lemma_bytes_question_spaced();
    lemma_bytes_colon_spaced();
    lemma_bytes_rparen();
    let e = ExpressionView::Cond(Box::new(g), Box::new(a), Box::new(b));
    assert(render_expression(e) + t =~= seq![0x28u8] + (render_expression(g) + (seq![0x20u8] + (
    seq![0x3fu8] + (seq![0x20u8] + (render_expression(a) + (seq![0x20u8] + (seq![0x3au8] + (seq![
        0x20u8,
    ] + (render_expression(b) + (seq![0x29u8] + t)))))))))));
}

/// The text of an assignment, piece by piece.
pub proof fn lemma_shape_assignment(l: ExpressionView, r: ExpressionView, t: Seq<u8>)
    ensures
        render_expression(ExpressionView::Assign(Box::new(l), Box::new(r))) + t == seq![0x28u8]
            + (render_expression(l) + (seq![0x20u8] + (seq![0x3du8] + (seq![0x20u8] + (
        render_expression(r) + (seq![0x29u8] + t)))))),
{
    lemma_bytes_lparen();
    lemma_bytes_assign_spaced();
    lemma_bytes_rparen();
    assert(render_expression(ExpressionView::Assign(Box::new(l), Box::new(r))) + t =~= seq![
        0x28u8,
    ] + (render_expression(l) + (seq![0x20u8] + (seq![0x3du8] + (seq![0x20u8] + (
    render_expression(r) + (seq![0x29u8] + t)))))));
}

/// The text of an expression statement, piece by piece.
pub proof fn lemma_shape_expression_statement(e: ExpressionView, t: Seq<u8>)
    ensures
        render_statement(StatementView::Exp(e)) + t == render_expression(e) + (seq![0x3bu8] + t),
{
    lemma_bytes_semi();
    assert(render_statement(StatementView::Exp(e)) + t =~= render_expression(e) + (seq![0x3bu8]
        + t));
}

/// The text of a `print` statement, piece by piece.
pub proof fn lemma_shape_print(e: ExpressionView, t: Seq<u8>)
    ensures
        render_statement(StatementView::Print(e)) + t == text("print") + (seq![0x20u8] + (
        render_expression(e) + (seq![0x3bu8] + t))),
{
    lemma_bytes_print_space();
    lemma_bytes_semi();
    lemma_lex_keyword_print(Seq::<u8>::empty());
    assert(render_statement(StatementView::Print(e)) + t =~= text("print") + (seq![0x20u8] + (
    render_expression(e) + (seq![0x3bu8] + t))));
}

/// The text of a block, piece by piece.
pub proof fn lemma_shape_block(stmts: Seq<StatementView>, t: Seq<u8>)
    ensures
        render_statement(StatementView::Block(stmts)) + t == seq![0x7bu8] + (seq![0x0au8] + (
        render_statements(stmts) + (seq![0x7du8] + t))),
{
    lemma_bytes_open_block();
    lemma_bytes_rbrace();
    assert(render_statement(StatementView::Block(stmts)) + t =~= seq![0x7bu8] + (seq![0x0au8] + (
    render_statements(stmts) + (seq![0x7du8] + t))));
}

/// The text of a guard in parentheses and a block, as it stands behind the
/// keyword of `if` and of `while`.
pub open spec fn guarded_text(g: ExpressionView, body: StatementView, t: Seq<u8>) -> Seq<u8> {
    seq![0x20u8] + (seq![0x28u8] + (render_expression(g) + (seq![0x29u8] + (seq![0x20u8] + (
    render_statement(body) + t)))))
}

/// The text of a keyword with an opening parenthesis, a guard, a closing
/// parenthesis and a block, piece by piece.
pub proof fn lemma_shape_guarded(
    keyword: Seq<u8>,
    opening: Seq<u8>,
    g: ExpressionView,
    body: StatementView,
    t: Seq<u8>,
)
    requires
        opening == keyword + seq![0x20u8, 0x28u8],
    ensures
        opening + render_expression(g) + text(") ") + render_statement(body) + t == keyword
            + guarded_text(g, body, t),
{
    lemma_bytes_close_space();
    assert(opening + render_expression(g) + text(") ") + render_statement(body) + t =~= keyword
        + guarded_text(g, body, t));
}

/// The text of a `while` statement, piece by piece.
pub proof fn lemma_shape_while(g: ExpressionView, body: StatementView, t: Seq<u8>)
    ensures
        render_statement(StatementView::While(g, Box::new(body))) + t == text("while")
            + guarded_text(g, body, t),
{
    lemma_bytes_while_open();
    lemma_lex_keyword_while(Seq::<u8>::empty());
    assert(text("while (") =~= text("while") + seq![0x20u8, 0x28u8]);
    lemma_shape_guarded(text("while"), text("while ("), g, body, t);
}

/// The text of an `else` branch, piece by piece.
pub proof fn lemma_shape_else(el: StatementView, t: Seq<u8>)
    ensures
        text(" else ") + render_statement(el) + t == seq![0x20u8] + (text("else") + (seq![
            0x20u8,
        ] + (render_statement(el) + t))),
{
    lemma_bytes_else_spaced();
    lemma_lex_keyword_else(Seq::<u8>::empty());
    assert(text(" else ") + render_statement(el) + t =~= seq![0x20u8] + (text("else") + (seq![
        0x20u8,
    ] + (render_statement(el) + t))));
}

/// The text of an `if` statement, piece by piece.
pub proof fn lemma_shape_if(g: ExpressionView, th: StatementView, el: StatementView, t: Seq<u8>)
    ensures
        render_statement(StatementView::If(g, Box::new(th), Box::new(el))) + t == text("if")
            + guarded_text(
            g,
            th,
            seq![0x20u8] + (text("else") + (seq![0x20u8] + (render_statement(el) + t))),
        ),
{
    let tail = text(" else ") + render_statement(el) + t;
    let front = text("if (") + render_expression(g) + text(") ") + render_statement(th);
    lemma_bytes_if_open();
    lemma_lex_keyword_if(Seq::<u8>::empty());
    assert(text("if (") =~= text("if") + seq![0x20u8, 0x28u8]);
    lemma_shape_guarded(text("if"), text("if ("), g, th, tail);
    lemma_shape_else(el, t);
    assert(render_statement(StatementView::If(g, Box::new(th), Box::new(el))) + t =~= front
        + tail);
}

/// The text of the statements of a block: the first, then the others.
pub proof fn lemma_shape_statements(stmts: Seq<StatementView>, t: Seq<u8>)
    ensures
        stmts.len() == 0 ==> render_statements(stmts) + t == t,
        stmts.len() > 0 ==> render_statements(stmts) + t == render_statement(stmts[0]) + (seq![
            0x0au8,
        ] + (render_statements(stmts.drop_first()) + t)),
{
    lemma_bytes_newline();
    if stmts.len() == 0 {
        assert(render_statements(stmts) + t =~= t);
    } else {
        assert(render_statements(stmts) + t =~= render_statement(stmts[0]) + (seq![0x0au8] + (
        render_statements(stmts.drop_first()) + t)));
    }
}

/// The text of a declaration, piece by piece.
pub proof fn lemma_shape_declaration(d: DeclarationView, t: Seq<u8>)
    ensures
        match d {
            DeclarationView::Id(id) => render_declaration(d) + t == encode_utf8(id) + t,
            DeclarationView::Init(id, src) => render_declaration(d) + t == encode_utf8(id) + (
            seq![0x20u8] + (seq![0x3du8] + (seq![0x20u8] + (render_expression(src) + t)))),
        },
{
    lemma_bytes_assign_spaced();
    match d {
        DeclarationView::Id(id) => {},
        DeclarationView::Init(id, src) => {
            assert(render_declaration(d) + t =~= encode_utf8(id) + (seq![0x20u8] + (seq![0x3du8]
                + (seq![0x20u8] + (render_expression(src) + t)))));
        },
    }
}

/// The text of the rest of a declaration list: the first, then the others.
pub proof fn lemma_shape_more_declarations(decls: Seq<DeclarationView>, t: Seq<u8>)
    ensures
        decls.len() == 0 ==> render_more_declarations(decls) + t == t,
        decls.len() > 0 ==> render_more_declarations(decls) + t == seq![0x2cu8] + (seq![0x20u8]
            + (render_declaration(decls[0]) + (render_more_declarations(decls.drop_first())
            + t))),
{
    lemma_bytes_comma_space();
    if decls.len() == 0 {
        assert(render_more_declarations(decls) + t =~= t);
    } else {
        assert(render_more_declarations(decls) + t =~= seq![0x2cu8] + (seq![0x20u8] + (
        render_declaration(decls[0]) + (render_more_declarations(decls.drop_first()) + t))));
    }
}

/// The text of a `var` list, piece by piece.
pub proof fn lemma_shape_var(decls: Seq<DeclarationView>, t: Seq<u8>)
    requires
        decls.len() > 0,
    ensures
        render_source_element(SourceElementView::VarDecl(decls)) + t == text("var") + (seq![
            0x20u8,
        ] + (render_declaration(decls[0]) + (render_more_declarations(decls.drop_first()) + (
        seq![0x3bu8] + t)))),
{
    lemma_bytes_var_space();
    lemma_bytes_semi();
    lemma_lex_keyword_var(Seq::<u8>::empty());
    assert(render_source_element(SourceElementView::VarDecl(decls)) + t =~= text("var") + (seq![
        0x20u8,
    ] + (render_declaration(decls[0]) + (render_more_declarations(decls.drop_first()) + (seq![
        0x3bu8,
    ] + t)))));
}

/// The text of top-level elements: the first, then the others.
pub proof fn lemma_shape_source_elements(elems: Seq<SourceElementView>, t: Seq<u8>)
    ensures
        elems.len() == 0 ==> render_source_elements(elems) + t == t,
        elems.len() > 0 ==> render_source_elements(elems) + t == render_source_element(elems[0])
            + (seq![0x0au8] + (render_source_elements(elems.drop_first()) + t)),
{
    lemma_bytes_newline();
    if elems.len() == 0 {
        assert(render_source_elements(elems) + t =~= t);
    } else {
        assert(render_source_elements(elems) + t =~= render_source_element(elems[0]) + (seq![
            0x0au8,
        ] + (render_source_elements(elems.drop_first()) + t)));
    }
}

} // verus!
