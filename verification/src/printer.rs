//! The pretty-printer: from a tree back to source text.
//!
//! Every binary, unary, conditional and assignment expression is written in
//! parentheses, so the text shows the shape of the tree and needs no
//! precedence to be read back. String literals are written with the escapes
//! that the tokenizer undoes.
use vstd::prelude::*;
use vstd::string::*;
use vstd::utf8::*;
use crate::ast::{
    binary_symbol, declaration_views, lemma_block_view, source_element_views, statement_views,
    unary_symbol, Declaration, DeclarationView, ExpAssignData, ExpBinaryData, ExpCondData,
    ExpUnaryData, Expression, ExpressionView, Program, ProgramView, SourceElement,
    SourceElementView, Statement, StatementView, UnaryOperator,
};
use crate::decimal::{decimal, lemma_decimal_is_ascii, push_decimal};
use crate::text::{lemma_ascii_is_valid_utf8, string_of_valid_utf8};

verus! {

/// The bytes of a piece of text.
pub open spec fn text(s: &str) -> Seq<u8> {
    encode_utf8(s@)
}

/// How one byte of a string literal is written: the quote, the backslash and
/// the six control characters that have one are written as escapes, every
/// other byte as itself.
pub open spec fn escape_byte(b: u8) -> Seq<u8> {
    if b == 0x5c {
        seq![0x5cu8, 0x5cu8]
    } else if b == 0x22 {
        seq![0x5cu8, 0x22u8]
    } else if b == 0x0a {
        seq![0x5cu8, 0x6eu8]
    } else if b == 0x0d {
        seq![0x5cu8, 0x72u8]
    } else if b == 0x09 {
        seq![0x5cu8, 0x74u8]
    } else if b == 0x08 {
        seq![0x5cu8, 0x62u8]
    } else if b == 0x0b {
        seq![0x5cu8, 0x76u8]
    } else if b == 0x0c {
        seq![0x5cu8, 0x66u8]
    } else {
        seq![b]
    }
}

/// How the bytes of a string literal are written between its quotes.
pub open spec fn escape_bytes(s: Seq<u8>) -> Seq<u8>
    decreases s.len(),
{
    if s.len() == 0 {
        Seq::empty()
    } else {
        escape_byte(s[0]) + escape_bytes(s.drop_first())
    }
}

/// How a prefix operator is written in front of its operand.
pub open spec fn render_prefix(opr: UnaryOperator) -> Seq<u8> {
    match opr {
        UnaryOperator::UopTypeof => text("typeof "),
        _ => encode_utf8(unary_symbol(opr)),
    }
}

/// The source text of an expression.
pub open spec fn render_expression(e: ExpressionView) -> Seq<u8>
    decreases e,
{
    match e {
        ExpressionView::Num(n) => decimal(n as int),
        ExpressionView::Str(s) => text("\"") + escape_bytes(encode_utf8(s)) + text("\""),
        ExpressionView::True => text("true"),
        ExpressionView::False => text("false"),
        ExpressionView::Undefined => text("undefined"),
        ExpressionView::Id(s) => encode_utf8(s),
        ExpressionView::Binary(opr, lft, rht) => text("(") + render_expression(*lft) + text(" ")
            + encode_utf8(binary_symbol(opr)) + text(" ") + render_expression(*rht) + text(")"),
        ExpressionView::Unary(opr, opnd) => text("(") + render_prefix(opr) + render_expression(
            *opnd,
        ) + text(")"),
        ExpressionView::Cond(guard, then_exp, else_exp) => text("(") + render_expression(*guard)
            + text(" ? ") + render_expression(*then_exp) + text(" : ") + render_expression(
            *else_exp,
        ) + text(")"),
        ExpressionView::Assign(lft, rht) => text("(") + render_expression(*lft) + text(" = ")
            + render_expression(*rht) + text(")"),
    }
}

/// The source text of a statement.
pub open spec fn render_statement(s: StatementView) -> Seq<u8>
    decreases s,
{
    match s {
        StatementView::Exp(e) => render_expression(e) + text(";"),
        StatementView::Print(e) => text("print ") + render_expression(e) + text(";"),
        StatementView::Block(stmts) => text("{\n") + render_statements(stmts) + text("}"),
        StatementView::If(guard, th, el) => text("if (") + render_expression(guard) + text(") ")
            + render_statement(*th) + text(" else ") + render_statement(*el),
        StatementView::While(guard, body) => text("while (") + render_expression(guard) + text(
            ") ",
        ) + render_statement(*body),
    }
}

/// The source text of the statements of a block: each on a line of its own.
pub open spec fn render_statements(stmts: Seq<StatementView>) -> Seq<u8>
    decreases stmts,
{
    if stmts.len() == 0 {
        Seq::empty()
    } else {
        render_statement(stmts[0]) + text("\n") + render_statements(stmts.drop_first())
    }
}

/// The source text of a declaration.
pub open spec fn render_declaration(d: DeclarationView) -> Seq<u8> {
    match d {
        DeclarationView::Id(id) => encode_utf8(id),
        DeclarationView::Init(id, src) => encode_utf8(id) + text(" = ") + render_expression(src),
    }
}

/// The source text of the declarations that follow the first one of a list:
/// each behind a comma.
pub open spec fn render_more_declarations(decls: Seq<DeclarationView>) -> Seq<u8>
    decreases decls.len(),
{
    if decls.len() == 0 {
        Seq::empty()
    } else {
        text(", ") + render_declaration(decls[0]) + render_more_declarations(decls.drop_first())
    }
}

/// The source text of a top-level element.
pub open spec fn render_source_element(e: SourceElementView) -> Seq<u8> {
    match e {
        SourceElementView::Stmt(s) => render_statement(s),
        SourceElementView::VarDecl(decls) => if decls.len() == 0 {
            text("var ") + text(";")
        } else {
            text("var ") + render_declaration(decls[0]) + render_more_declarations(
                decls.drop_first(),
            ) + text(";")
        },
    }
}

/// The source text of top-level elements: each on a line of its own.
pub open spec fn render_source_elements(elems: Seq<SourceElementView>) -> Seq<u8>
    decreases elems.len(),
{
    if elems.len() == 0 {
        Seq::empty()
    } else {
        render_source_element(elems[0]) + text("\n") + render_source_elements(elems.drop_first())
    }
}

/// The source text of a program.
pub open spec fn render_program(p: ProgramView) -> Seq<u8> {
    render_source_elements(p.elements)
}

/// Escaping is done byte by byte: the escape of a concatenation is the
/// concatenation of the escapes.
pub proof fn lemma_escape_bytes_concat(a: Seq<u8>, b: Seq<u8>)
    ensures
        escape_bytes(a + b) == escape_bytes(a) + escape_bytes(b),
    decreases a.len(),
{
    if a.len() == 0 {
        assert(a + b =~= b);
        assert(escape_bytes(a) + escape_bytes(b) =~= escape_bytes(b));
    } else {
        lemma_escape_bytes_concat(a.drop_first(), b);
        assert((a + b).drop_first() =~= a.drop_first() + b);
        assert(escape_byte(a[0]) + (escape_bytes(a.drop_first()) + escape_bytes(b)) =~= (
        escape_byte(a[0]) + escape_bytes(a.drop_first())) + escape_bytes(b));
    }
}

/// Bytes outside ASCII are written as they are.
pub proof fn lemma_escape_bytes_high(s: Seq<u8>)
    requires
        forall|i: int| 0 <= i < s.len() ==> #[trigger] s[i] >= 0x80,
    ensures
        escape_bytes(s) == s,
    decreases s.len(),
{
    if s.len() > 0 {
        let r = s.drop_first();
        assert forall|i: int| 0 <= i < r.len() implies #[trigger] r[i] >= 0x80 by {
            assert(r[i] == s[i + 1]);
        }
        lemma_escape_bytes_high(r);
        assert(seq![s[0]] + r =~= s);
    } else {
        assert(escape_bytes(s) =~= s);
    }
}

/// The escaped form of valid UTF-8 is valid UTF-8.
pub proof fn lemma_escape_bytes_valid(s: Seq<u8>)
    requires
        valid_utf8(s),
    ensures
        valid_utf8(escape_bytes(s)),
    decreases s.len(),
{
    if s.len() > 0 {
        let k = length_of_first_scalar(s);
        let head = s.subrange(0, k);
        let tail = pop_first_scalar(s);
        assert(valid_first_scalar(s));
        assert(s =~= head + tail);
        lemma_escape_bytes_valid(tail);
        lemma_escape_bytes_concat(head, tail);
        if k == 1 {
            reveal_with_fuel(escape_bytes, 2);
            assert(head =~= seq![s[0]]);
            assert(head.drop_first() =~= Seq::<u8>::empty());
            assert(escape_bytes(head) =~= escape_byte(s[0]));
            lemma_ascii_is_valid_utf8(escape_byte(s[0]));
        } else {
            assert(valid_utf8(head)) by {
                reveal_with_fuel(valid_utf8, 2);
                assert(valid_first_scalar(head));
                assert(pop_first_scalar(head) =~= Seq::<u8>::empty());
            }
            lemma_escape_bytes_high(head);
        }
        valid_utf8_concat(escape_bytes(head), escape_bytes(tail));
    }
}

/// The text of an expression is valid UTF-8.
pub proof fn lemma_render_expression_valid(e: ExpressionView)
    ensures
        valid_utf8(render_expression(e)),
    decreases e,
{
    match e {
        ExpressionView::Num(n) => {
            lemma_decimal_is_ascii(n as int);
            lemma_ascii_is_valid_utf8(decimal(n as int));
        },
        ExpressionView::Str(s) => {
            encode_utf8_valid_utf8(s);
            lemma_escape_bytes_valid(encode_utf8(s));
            let q = text("\"");
            encode_utf8_valid_utf8("\""@);
            valid_utf8_concat(q, escape_bytes(encode_utf8(s)));
            valid_utf8_concat(q + escape_bytes(encode_utf8(s)), q);
        },
        ExpressionView::True => {
            encode_utf8_valid_utf8("true"@);
        },
        ExpressionView::False => {
            encode_utf8_valid_utf8("false"@);
        },
        ExpressionView::Undefined => {
            encode_utf8_valid_utf8("undefined"@);
        },
        ExpressionView::Id(s) => {
            encode_utf8_valid_utf8(s);
        },
        ExpressionView::Binary(opr, lft, rht) => {
            let l = render_expression(*lft);
            let r = render_expression(*rht);
            let o = encode_utf8(binary_symbol(opr));
            lemma_render_expression_valid(*lft);
            lemma_render_expression_valid(*rht);
            encode_utf8_valid_utf8(binary_symbol(opr));
            encode_utf8_valid_utf8("("@);
            encode_utf8_valid_utf8(" "@);
            encode_utf8_valid_utf8(" "@);
            encode_utf8_valid_utf8(")"@);
            valid_utf8_concat(text("("), l);
            valid_utf8_concat(text("(") + l, text(" "));
            valid_utf8_concat(text("(") + l + text(" "), o);
            valid_utf8_concat(text("(") + l + text(" ") + o, text(" "));
            valid_utf8_concat(text("(") + l + text(" ") + o + text(" "), r);
            valid_utf8_concat(text("(") + l + text(" ") + o + text(" ") + r, text(")"));
        },
        ExpressionView::Unary(opr, opnd) => {
            let x = render_expression(*opnd);
            let o = render_prefix(opr);
            lemma_render_expression_valid(*opnd);
            encode_utf8_valid_utf8(unary_symbol(opr));
            encode_utf8_valid_utf8("typeof "@);
            encode_utf8_valid_utf8("("@);
            encode_utf8_valid_utf8(")"@);
            valid_utf8_concat(text("("), o);
            valid_utf8_concat(text("(") + o, x);
            valid_utf8_concat(text("(") + o + x, text(")"));
        },
        ExpressionView::Cond(guard, then_exp, else_exp) => {
            let g = render_expression(*guard);
            let t = render_expression(*then_exp);
            let f = render_expression(*else_exp);
            lemma_render_expression_valid(*guard);
            lemma_render_expression_valid(*then_exp);
            lemma_render_expression_valid(*else_exp);
            encode_utf8_valid_utf8("("@);
            encode_utf8_valid_utf8(" ? "@);
            encode_utf8_valid_utf8(" : "@);
            encode_utf8_valid_utf8(")"@);
            valid_utf8_concat(text("("), g);
            valid_utf8_concat(text("(") + g, text(" ? "));
            valid_utf8_concat(text("(") + g + text(" ? "), t);
            valid_utf8_concat(text("(") + g + text(" ? ") + t, text(" : "));
            valid_utf8_concat(text("(") + g + text(" ? ") + t + text(" : "), f);
            valid_utf8_concat(text("(") + g + text(" ? ") + t + text(" : ") + f, text(")"));
        },
        ExpressionView::Assign(lft, rht) => {
            let l = render_expression(*lft);
            let r = render_expression(*rht);
            lemma_render_expression_valid(*lft);
            lemma_render_expression_valid(*rht);
            encode_utf8_valid_utf8("("@);
            encode_utf8_valid_utf8(" = "@);
            encode_utf8_valid_utf8(")"@);
            valid_utf8_concat(text("("), l);
            valid_utf8_concat(text("(") + l, text(" = "));
            valid_utf8_concat(text("(") + l + text(" = "), r);
            valid_utf8_concat(text("(") + l + text(" = ") + r, text(")"));
        },
    }
}

/// The text of a statement is valid UTF-8.
pub proof fn lemma_render_statement_valid(s: StatementView)
    ensures
        valid_utf8(render_statement(s)),
    decreases s,
{
    match s {
        StatementView::Exp(e) => {
            let x = render_expression(e);
            lemma_render_expression_valid(e);
            encode_utf8_valid_utf8(";"@);
            valid_utf8_concat(x, text(";"));
        },
        StatementView::Print(e) => {
            let x = render_expression(e);
            lemma_render_expression_valid(e);
            encode_utf8_valid_utf8("print "@);
            encode_utf8_valid_utf8(";"@);
            valid_utf8_concat(text("print "), x);
            valid_utf8_concat(text("print ") + x, text(";"));
        },
        StatementView::Block(stmts) => {
            let x = render_statements(stmts);
            lemma_render_statements_valid(stmts);
            encode_utf8_valid_utf8("{\n"@);
            encode_utf8_valid_utf8("}"@);
            valid_utf8_concat(text("{\n"), x);
            valid_utf8_concat(text("{\n") + x, text("}"));
        },
        StatementView::If(guard, th, el) => {
            let g = render_expression(guard);
            let t = render_statement(*th);
            let f = render_statement(*el);
            lemma_render_expression_valid(guard);
            lemma_render_statement_valid(*th);
            lemma_render_statement_valid(*el);
            encode_utf8_valid_utf8("if ("@);
            encode_utf8_valid_utf8(") "@);
            encode_utf8_valid_utf8(" else "@);
            valid_utf8_concat(text("if ("), g);
            valid_utf8_concat(text("if (") + g, text(") "));
            valid_utf8_concat(text("if (") + g + text(") "), t);
            valid_utf8_concat(text("if (") + g + text(") ") + t, text(" else "));
            valid_utf8_concat(text("if (") + g + text(") ") + t + text(" else "), f);
        },
        StatementView::While(guard, body) => {
            let g = render_expression(guard);
            let b = render_statement(*body);
            lemma_render_expression_valid(guard);
            lemma_render_statement_valid(*body);
            encode_utf8_valid_utf8("while ("@);
            encode_utf8_valid_utf8(") "@);
            valid_utf8_concat(text("while ("), g);
            valid_utf8_concat(text("while (") + g, text(") "));
            valid_utf8_concat(text("while (") + g + text(") "), b);
        },
    }
}

/// The text of the statements of a block is valid UTF-8.
pub proof fn lemma_render_statements_valid(stmts: Seq<StatementView>)
    ensures
        valid_utf8(render_statements(stmts)),
    decreases stmts,
{
    if stmts.len() > 0 {
        let x = render_statement(stmts[0]);
        let r = render_statements(stmts.drop_first());
        lemma_render_statement_valid(stmts[0]);
        lemma_render_statements_valid(stmts.drop_first());
        encode_utf8_valid_utf8("\n"@);
        valid_utf8_concat(x, text("\n"));
        valid_utf8_concat(x + text("\n"), r);
    }
}

/// The text of a declaration is valid UTF-8.
pub proof fn lemma_render_declaration_valid(d: DeclarationView)
    ensures
        valid_utf8(render_declaration(d)),
{
    match d {
        DeclarationView::Id(id) => {
            encode_utf8_valid_utf8(id);
        },
        DeclarationView::Init(id, src) => {
            let n = encode_utf8(id);
            let x = render_expression(src);
            encode_utf8_valid_utf8(id);
            lemma_render_expression_valid(src);
            encode_utf8_valid_utf8(" = "@);
            valid_utf8_concat(n, text(" = "));
            valid_utf8_concat(n + text(" = "), x);
        },
    }
}

/// The text of the rest of a declaration list is valid UTF-8.
pub proof fn lemma_render_more_declarations_valid(decls: Seq<DeclarationView>)
    ensures
        valid_utf8(render_more_declarations(decls)),
    decreases decls.len(),
{
    if decls.len() > 0 {
        let d = render_declaration(decls[0]);
        let r = render_more_declarations(decls.drop_first());
        lemma_render_declaration_valid(decls[0]);
        lemma_render_more_declarations_valid(decls.drop_first());
        encode_utf8_valid_utf8(", "@);
        valid_utf8_concat(text(", "), d);
        valid_utf8_concat(text(", ") + d, r);
    }
}

/// The text of a top-level element is valid UTF-8.
pub proof fn lemma_render_source_element_valid(e: SourceElementView)
    ensures
        valid_utf8(render_source_element(e)),
{
    match e {
        SourceElementView::Stmt(s) => {
            lemma_render_statement_valid(s);
        },
        SourceElementView::VarDecl(decls) => {
            if decls.len() > 0 {
                let d = render_declaration(decls[0]);
                let r = render_more_declarations(decls.drop_first());
                lemma_render_declaration_valid(decls[0]);
                lemma_render_more_declarations_valid(decls.drop_first());
                encode_utf8_valid_utf8("var "@);
                encode_utf8_valid_utf8(";"@);
                valid_utf8_concat(text("var "), d);
                valid_utf8_concat(text("var ") + d, r);
                valid_utf8_concat(text("var ") + d + r, text(";"));
            } else {
                encode_utf8_valid_utf8("var "@);
                encode_utf8_valid_utf8(";"@);
                valid_utf8_concat(text("var "), text(";"));
            }
        },
    }
}

/// The text of top-level elements is valid UTF-8.
pub proof fn lemma_render_source_elements_valid(elems: Seq<SourceElementView>)
    ensures
        valid_utf8(render_source_elements(elems)),
    decreases elems.len(),
{
    if elems.len() > 0 {
        let x = render_source_element(elems[0]);
        let r = render_source_elements(elems.drop_first());
        lemma_render_source_element_valid(elems[0]);
        lemma_render_source_elements_valid(elems.drop_first());
        encode_utf8_valid_utf8("\n"@);
        valid_utf8_concat(x, text("\n"));
        valid_utf8_concat(x + text("\n"), r);
    }
}

/// Escaping byte by byte from the front is escaping byte by byte to the end.
pub proof fn lemma_escape_bytes_push(s: Seq<u8>, b: u8)
    ensures
        escape_bytes(s.push(b)) == escape_bytes(s) + escape_byte(b),
{
    reveal_with_fuel(escape_bytes, 2);
    lemma_escape_bytes_concat(s, seq![b]);
    assert(s.push(b) =~= s + seq![b]);
    assert(seq![b].drop_first() =~= Seq::<u8>::empty());
    assert(escape_bytes(seq![b]) =~= escape_byte(b));
}

/// The text of the statements of a block, one statement at a time.
pub proof fn lemma_render_statements_push(stmts: Seq<StatementView>, last: StatementView)
    ensures
        render_statements(stmts.push(last)) == render_statements(stmts) + render_statement(last)
            + text("\n"),
    decreases stmts.len(),
{
    if stmts.len() == 0 {
        assert(stmts.push(last).drop_first() =~= Seq::<StatementView>::empty());
        reveal_with_fuel(render_statements, 2);
        assert(render_statements(stmts.push(last)) =~= render_statements(stmts)
            + render_statement(last) + text("\n"));
    } else {
        lemma_render_statements_push(stmts.drop_first(), last);
        assert(stmts.push(last).drop_first() =~= stmts.drop_first().push(last));
        assert(render_statements(stmts.push(last)) =~= render_statements(stmts)
            + render_statement(last) + text("\n"));
    }
}

/// The text of the rest of a declaration list, one declaration at a time.
pub proof fn lemma_render_more_declarations_push(
    decls: Seq<DeclarationView>,
    last: DeclarationView,
)
    ensures
        render_more_declarations(decls.push(last)) == render_more_declarations(decls) + text(", ")
            + render_declaration(last),
    decreases decls.len(),
{
    if decls.len() == 0 {
        assert(decls.push(last).drop_first() =~= Seq::<DeclarationView>::empty());
        reveal_with_fuel(render_more_declarations, 2);
        assert(render_more_declarations(decls.push(last)) =~= render_more_declarations(decls)
            + text(", ") + render_declaration(last));
    } else {
        lemma_render_more_declarations_push(decls.drop_first(), last);
        assert(decls.push(last).drop_first() =~= decls.drop_first().push(last));
        assert(render_more_declarations(decls.push(last)) =~= render_more_declarations(decls)
            + text(", ") + render_declaration(last));
    }
}

/// The text of top-level elements, one element at a time.
pub proof fn lemma_render_source_elements_push(
    elems: Seq<SourceElementView>,
    last: SourceElementView,
)
    ensures
        render_source_elements(elems.push(last)) == render_source_elements(elems)
            + render_source_element(last) + text("\n"),
    decreases elems.len(),
{
    if elems.len() == 0 {
        assert(elems.push(last).drop_first() =~= Seq::<SourceElementView>::empty());
        reveal_with_fuel(render_source_elements, 2);
        assert(render_source_elements(elems.push(last)) =~= render_source_elements(elems)
            + render_source_element(last) + text("\n"));
    } else {
        lemma_render_source_elements_push(elems.drop_first(), last);
        assert(elems.push(last).drop_first() =~= elems.drop_first().push(last));
        assert(render_source_elements(elems.push(last)) =~= render_source_elements(elems)
            + render_source_element(last) + text("\n"));
    }
}

/// Appends `bytes` to `buf`.
fn push_bytes(buf: &mut Vec<u8>, bytes: &[u8])
    ensures
        final(buf)@ == old(buf)@ + bytes@,
{
    let mut i: usize = 0;
    while i < bytes.len()
        invariant
            0 <= i <= bytes.len(),
            buf@ == old(buf)@ + bytes@.take(i as int),
        decreases bytes.len() - i,
    {
        buf.push(bytes[i]);
        proof {
            assert(bytes@.take(i + 1) =~= bytes@.take(i as int).push(bytes@[i as int]));
            assert(buf@ =~= old(buf)@ + bytes@.take(i + 1));
        }
        i = i + 1;
    }
    proof {
        assert(bytes@.take(i as int) =~= bytes@);
    }
}

/// Appends the bytes of the text `s` to `buf`.
fn push_text(buf: &mut Vec<u8>, s: &str)
    ensures
        final(buf)@ == old(buf)@ + text(s),
{
    push_bytes(buf, s.as_bytes());
}

/// Appends the escaped form of `bytes` to `buf`.
fn push_escaped(buf: &mut Vec<u8>, bytes: &[u8])
    ensures
        final(buf)@ == old(buf)@ + escape_bytes(bytes@),
{
    let mut i: usize = 0;
    while i < bytes.len()
        invariant
            0 <= i <= bytes.len(),
            buf@ == old(buf)@ + escape_bytes(bytes@.take(i as int)),
        decreases bytes.len() - i,
    {
        let b = bytes[i];
        let ghost before = buf@;
        if b == 0x5c {
            buf.push(0x5c);
            buf.push(0x5c);
        } else if b == 0x22 {
            buf.push(0x5c);
            buf.push(0x22);
        } else if b == 0x0a {
            buf.push(0x5c);
            buf.push(0x6e);
        } else if b == 0x0d {
            buf.push(0x5c);
            buf.push(0x72);
        } else if b == 0x09 {
            buf.push(0x5c);
            buf.push(0x74);
        } else if b == 0x08 {
            buf.push(0x5c);
            buf.push(0x62);
        } else if b == 0x0b {
            buf.push(0x5c);
            buf.push(0x76);
        } else if b == 0x0c {
            buf.push(0x5c);
            buf.push(0x66);
        } else {
            buf.push(b);
        }
        proof {
            assert(buf@ =~= before + escape_byte(b));
            assert(bytes@.take(i + 1) =~= bytes@.take(i as int).push(b));
            lemma_escape_bytes_push(bytes@.take(i as int), b);
            assert(buf@ =~= old(buf)@ + escape_bytes(bytes@.take(i + 1)));
        }
        i = i + 1;
    }
    proof {
        assert(bytes@.take(i as int) =~= bytes@);
    }
}

/// Appends the source text of a binary expression to `buf`.
fn push_binary(d: &ExpBinaryData, buf: &mut Vec<u8>)
    ensures
        final(buf)@ == old(buf)@ + (text("(") + render_expression(d.lft@) + text(" ")
            + encode_utf8(binary_symbol(d.opr)) + text(" ") + render_expression(d.rht@) + text(
            ")",
        )),
    decreases d,
{
    push_text(buf, "(");
    push_expression(&*d.lft, buf);
    push_text(buf, " ");
    push_text(buf, d.opr.symbol());
    push_text(buf, " ");
    push_expression(&*d.rht, buf);
    push_text(buf, ")");
    proof {
        let l = render_expression(d.lft@);
        let r = render_expression(d.rht@);
        let o = encode_utf8(binary_symbol(d.opr));
        assert(buf@ =~= old(buf)@ + (text("(") + l + text(" ") + o + text(" ") + r + text(")")));
    }
}

/// Appends the source text of a prefix expression to `buf`.
fn push_unary(d: &ExpUnaryData, buf: &mut Vec<u8>)
    ensures
        final(buf)@ == old(buf)@ + (text("(") + render_prefix(d.opr) + render_expression(d.opnd@)
            + text(")")),
    decreases d,
{
    push_text(buf, "(");
    match d.opr {
        UnaryOperator::UopTypeof => {
            push_text(buf, "typeof ");
        },
        _ => {
            push_text(buf, d.opr.symbol());
        },
    }
    push_expression(&*d.opnd, buf);
    push_text(buf, ")");
    proof {
        let x = render_expression(d.opnd@);
        assert(buf@ =~= old(buf)@ + (text("(") + render_prefix(d.opr) + x + text(")")));
    }
}

/// Appends the source text of a conditional expression to `buf`.
fn push_conditional(d: &ExpCondData, buf: &mut Vec<u8>)
    ensures
        final(buf)@ == old(buf)@ + (text("(") + render_expression(d.guard@) + text(" ? ")
            + render_expression(d.then_exp@) + text(" : ") + render_expression(d.else_exp@)
            + text(")")),
    decreases d,
{
    push_text(buf, "(");
    push_expression(&*d.guard, buf);
    push_text(buf, " ? ");
    push_expression(&*d.then_exp, buf);
    push_text(buf, " : ");
    push_expression(&*d.else_exp, buf);
    push_text(buf, ")");
    proof {
        let g = render_expression(d.guard@);
        let t = render_expression(d.then_exp@);
        let f = render_expression(d.else_exp@);
        assert(buf@ =~= old(buf)@ + (text("(") + g + text(" ? ") + t + text(" : ") + f + text(
            ")",
        )));
    }
}

/// Appends the source text of an assignment to `buf`.
fn push_assignment(d: &ExpAssignData, buf: &mut Vec<u8>)
    ensures
        final(buf)@ == old(buf)@ + (text("(") + render_expression(d.lft@) + text(" = ")
            + render_expression(d.rht@) + text(")")),
    decreases d,
{
    push_text(buf, "(");
    push_expression(&*d.lft, buf);
    push_text(buf, " = ");
    push_expression(&*d.rht, buf);
    push_text(buf, ")");
    proof {
        let l = render_expression(d.lft@);
        let r = render_expression(d.rht@);
        assert(buf@ =~= old(buf)@ + (text("(") + l + text(" = ") + r + text(")")));
    }
}

/// Appends the source text of `e` to `buf`.
fn push_expression(e: &Expression, buf: &mut Vec<u8>)
    ensures
        final(buf)@ == old(buf)@ + render_expression(e@),
    decreases e,
{
    match e {
        Expression::ExpNum(n) => {
            push_decimal(*n, buf);
        },
        Expression::ExpString(s) => {
            push_text(buf, "\"");
            push_escaped(buf, s.as_str().as_bytes());
            push_text(buf, "\"");
            proof {
                assert(buf@ =~= old(buf)@ + (text("\"") + escape_bytes(encode_utf8(s@)) + text(
                    "\"",
                )));
            }
        },
        Expression::ExpTrue => {
            push_text(buf, "true");
        },
        Expression::ExpFalse => {
            push_text(buf, "false");
        },
        Expression::ExpUndefined => {
            push_text(buf, "undefined");
        },
        Expression::ExpId(s) => {
            push_bytes(buf, s.as_str().as_bytes());
        },
        Expression::ExpBinary(d) => {
            push_binary(d, buf);
        },
        Expression::ExpUnary(d) => {
            push_unary(d, buf);
        },
        Expression::ExpCond(d) => {
            push_conditional(d, buf);
        },
        Expression::ExpAssign(d) => {
            push_assignment(d, buf);
        },
    }
}

/// Appends the source text of `s` to `buf`.
#[verifier::loop_isolation(false)]
fn push_statement(s: &Statement, buf: &mut Vec<u8>)
    ensures
        final(buf)@ == old(buf)@ + render_statement(s@),
    decreases s,
{
    match s {
        Statement::StExp(e) => {
            push_expression(e, buf);
            push_text(buf, ";");
        },
        Statement::StPrint(e) => {
            push_text(buf, "print ");
            push_expression(e, buf);
            push_text(buf, ";");
        },
        Statement::StBlock(stmts) => {
            push_text(buf, "{\n");
            let ghost start = buf@;
            let mut i: usize = 0;
            proof {
                assert(statement_views(stmts@).take(0) =~= Seq::<StatementView>::empty());
                assert(buf@ =~= start + render_statements(statement_views(stmts@).take(0)));
            }
            while i < stmts.len()
                invariant
                    0 <= i <= stmts.len(),
                    buf@ == start + render_statements(statement_views(stmts@).take(i as int)),
                decreases stmts.len() - i,
            {
                let ghost before = buf@;
                push_statement(&stmts[i], buf);
                push_text(buf, "\n");
                proof {
                    let views = statement_views(stmts@);
                    assert(views.take(i + 1) =~= views.take(i as int).push(stmts@[i as int]@));
                    lemma_render_statements_push(views.take(i as int), stmts@[i as int]@);
                    assert(buf@ =~= start + render_statements(views.take(i + 1)));
                }
                i = i + 1;
            }
            push_text(buf, "}");
            proof {
                lemma_block_view(*stmts);
                assert(statement_views(stmts@).take(i as int) =~= statement_views(stmts@));
            }
        },
        Statement::StIf(d) => {
            push_text(buf, "if (");
            push_expression(&d.guard, buf);
            push_text(buf, ") ");
            push_statement(&*d.th, buf);
            push_text(buf, " else ");
            push_statement(&*d.el, buf);
        },
        Statement::StWhile(d) => {
            push_text(buf, "while (");
            push_expression(&d.guard, buf);
            push_text(buf, ") ");
            push_statement(&*d.body, buf);
        },
    }
    proof {
        assert(buf@ =~= old(buf)@ + render_statement(s@));
    }
}

/// Appends the source text of `d` to `buf`.
fn push_declaration(d: &Declaration, buf: &mut Vec<u8>)
    ensures
        final(buf)@ == old(buf)@ + render_declaration(d@),
{
    match d {
        Declaration::DeclId(id) => {
            push_bytes(buf, id.as_str().as_bytes());
        },
        Declaration::DeclInit(init) => {
            push_bytes(buf, init.id.as_str().as_bytes());
            push_text(buf, " = ");
            push_expression(&*init.src, buf);
        },
    }
    proof {
        assert(buf@ =~= old(buf)@ + render_declaration(d@));
    }
}

/// Appends the source text of `e` to `buf`.
fn push_source_element(e: &SourceElement, buf: &mut Vec<u8>)
    ensures
        final(buf)@ == old(buf)@ + render_source_element(e@),
{
    match e {
        SourceElement::Stmt(s) => {
            push_statement(s, buf);
        },
        SourceElement::VarDecl(decls) => {
            push_text(buf, "var ");
            if decls.len() > 0 {
                push_declaration(&decls[0], buf);
                let ghost start = buf@;
                let ghost rest = declaration_views(decls@).drop_first();
                let mut i: usize = 1;
                proof {
                    assert(rest.take(0) =~= Seq::<DeclarationView>::empty());
                    assert(buf@ =~= start + render_more_declarations(rest.take(0)));
                }
                while i < decls.len()
                    invariant
                        1 <= i <= decls.len(),
                        rest == declaration_views(decls@).drop_first(),
                        buf@ == start + render_more_declarations(rest.take(i - 1)),
                    decreases decls.len() - i,
                {
                    push_text(buf, ", ");
                    push_declaration(&decls[i], buf);
                    proof {
                        assert(rest.take(i as int) =~= rest.take(i - 1).push(decls@[i as int]@));
                        lemma_render_more_declarations_push(rest.take(i - 1), decls@[i as int]@);
                        assert(buf@ =~= start + render_more_declarations(rest.take(i as int)));
                    }
                    i = i + 1;
                }
                proof {
                    assert(rest.take(i - 1) =~= rest);
                }
            }
            push_text(buf, ";");
        },
    }
    proof {
        assert(buf@ =~= old(buf)@ + render_source_element(e@));
    }
}

/// Appends the source text of `p` to `buf`.
fn push_program(p: &Program, buf: &mut Vec<u8>)
    ensures
        final(buf)@ == old(buf)@ + render_program(p@),
{
    match p {
        Program::Prog(elems) => {
            let mut i: usize = 0;
            let ghost views = source_element_views(elems@);
            proof {
                assert(views.take(0) =~= Seq::<SourceElementView>::empty());
                assert(buf@ =~= old(buf)@ + render_source_elements(views.take(0)));
            }
            while i < elems.len()
                invariant
                    0 <= i <= elems.len(),
                    views == source_element_views(elems@),
                    buf@ == old(buf)@ + render_source_elements(views.take(i as int)),
                decreases elems.len() - i,
            {
                push_source_element(&elems[i], buf);
                push_text(buf, "\n");
                proof {
                    assert(views.take(i + 1) =~= views.take(i as int).push(elems@[i as int]@));
                    lemma_render_source_elements_push(views.take(i as int), elems@[i as int]@);
                    assert(buf@ =~= old(buf)@ + render_source_elements(views.take(i + 1)));
                }
                i = i + 1;
            }
            proof {
                assert(views.take(i as int) =~= views);
            }
        },
    }
}

impl Expression {
    /// The source text of this expression, with every compound expression
    /// in parentheses.
    pub fn to_text(&self) -> (res: String)
        ensures
            encode_utf8(res@) == render_expression(self@),
    {
        let mut buf: Vec<u8> = Vec::new();
        push_expression(self, &mut buf);
        proof {
            assert(buf@ =~= render_expression(self@));
            lemma_render_expression_valid(self@);
        }
        string_of_valid_utf8(buf)
    }
}

impl Statement {
    /// The source text of this statement.
    pub fn to_text(&self) -> (res: String)
        ensures
            encode_utf8(res@) == render_statement(self@),
    {
        let mut buf: Vec<u8> = Vec::new();
        push_statement(self, &mut buf);
        proof {
            assert(buf@ =~= render_statement(self@));
            lemma_render_statement_valid(self@);
        }
        string_of_valid_utf8(buf)
    }
}

impl SourceElement {
    /// The source text of this top-level element.
    pub fn to_text(&self) -> (res: String)
        ensures
            encode_utf8(res@) == render_source_element(self@),
    {
        let mut buf: Vec<u8> = Vec::new();
        push_source_element(self, &mut buf);
        proof {
            assert(buf@ =~= render_source_element(self@));
            lemma_render_source_element_valid(self@);
        }
        string_of_valid_utf8(buf)
    }
}

impl Program {
    /// The source text of this program: each top-level element on a line of
    /// its own.
    pub fn to_text(&self) -> (res: String)
        ensures
            encode_utf8(res@) == render_program(self@),
    {
        render(self)
    }
}

/// Writes a program back as source text.
///
/// The bytes of the result are exactly [`render_program`] of the tree: each
/// top-level element on a line of its own, every binary, unary, conditional
/// and assignment expression in parentheses, string literals with escapes.
pub fn render(p: &Program) -> (res: String)
    ensures
        encode_utf8(res@) == render_program(p@),
{
    let mut buf: Vec<u8> = Vec::new();
    push_program(p, &mut buf);
    proof {
        assert(buf@ =~= render_program(p@));
        lemma_render_source_elements_valid(p@.elements);
    }
    string_of_valid_utf8(buf)
}

} // verus!
