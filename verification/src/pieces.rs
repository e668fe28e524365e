//! The bytes of the fixed pieces of text that the pretty-printer writes, and
//! the tokens that they are read back as.
use vstd::prelude::*;
use vstd::utf8::*;
use crate::ast::{binary_symbol, BinaryOperator, UnaryOperator};
use crate::lexemes::{
    ends_word, is_word, lemma_lex_double, lemma_lex_single, lemma_lex_with_eq, lemma_lex_without_eq,
    lemma_lex_word,
};
use crate::parser::{level_operator, prefix_operator, BinaryLevel};
use crate::printer::{render_prefix, text};
use crate::tokenizer::{keyword_or_identifier, lex, TokenView};
use crate::types::JsishErrorView;

verus! {

/// The bytes of the text `(`.
pub proof fn lemma_bytes_lparen()
    ensures
        text("(") == seq![0x28u8],
{
    reveal_strlit("(");
    is_ascii_chars_encode_utf8("("@);
    assert(text("(") =~= seq![0x28u8]);
}

/// The bytes of the text `)`.
pub proof fn lemma_bytes_rparen()
    ensures
        text(")") == seq![0x29u8],
{
    reveal_strlit(")");
    is_ascii_chars_encode_utf8(")"@);
    assert(text(")") =~= seq![0x29u8]);
}

/// The bytes of a space.
pub proof fn lemma_bytes_space()
    ensures
        text(" ") == seq![0x20u8],
{
    reveal_strlit(" ");
    is_ascii_chars_encode_utf8(" "@);
    assert(text(" ") =~= seq![0x20u8]);
}

/// The bytes of the text `;`.
pub proof fn lemma_bytes_semi()
    ensures
        text(";") == seq![0x3bu8],
{
    reveal_strlit(";");
    is_ascii_chars_encode_utf8(";"@);
    assert(text(";") =~= seq![0x3bu8]);
}

/// The bytes of a line break.
pub proof fn lemma_bytes_newline()
    ensures
        text("\n") == seq![0x0au8],
{
    reveal_strlit("\n");
    is_ascii_chars_encode_utf8("\n"@);
    assert(text("\n") =~= seq![0x0au8]);
}

/// The bytes of an opening brace and a line break.
pub proof fn lemma_bytes_open_block()
    ensures
        text("{\n") == seq![0x7bu8, 0x0au8],
{
    reveal_strlit("{\n");
    is_ascii_chars_encode_utf8("{\n"@);
    assert(text("{\n") =~= seq![0x7bu8, 0x0au8]);
}

/// The bytes of the text `}`.
pub proof fn lemma_bytes_rbrace()
    ensures
        text("}") == seq![0x7du8],
{
    reveal_strlit("}");
    is_ascii_chars_encode_utf8("}"@);
    assert(text("}") =~= seq![0x7du8]);
}

/// The bytes of a quotation mark.
pub proof fn lemma_bytes_quote()
    ensures
        text("\"") == seq![0x22u8],
{
    reveal_strlit("\"");
    is_ascii_chars_encode_utf8("\""@);
    assert(text("\"") =~= seq![0x22u8]);
}

/// The bytes of the text `typeof `.
pub proof fn lemma_bytes_typeof_space()
    ensures
        text("typeof ") == seq![0x74u8, 0x79u8, 0x70u8, 0x65u8, 0x6fu8, 0x66u8, 0x20u8],
{
    reveal_strlit("typeof ");
    is_ascii_chars_encode_utf8("typeof "@);
    assert(text("typeof ") =~= seq![0x74u8, 0x79u8, 0x70u8, 0x65u8, 0x6fu8, 0x66u8, 0x20u8]);
}

/// The bytes of the text `print `.
pub proof fn lemma_bytes_print_space()
    ensures
        text("print ") == seq![0x70u8, 0x72u8, 0x69u8, 0x6eu8, 0x74u8, 0x20u8],
{
    reveal_strlit("print ");
    is_ascii_chars_encode_utf8("print "@);
    assert(text("print ") =~= seq![0x70u8, 0x72u8, 0x69u8, 0x6eu8, 0x74u8, 0x20u8]);
}

/// The bytes of the text `if (`.
pub proof fn lemma_bytes_if_open()
    ensures
        text("if (") == seq![0x69u8, 0x66u8, 0x20u8, 0x28u8],
{
    reveal_strlit("if (");
    is_ascii_chars_encode_utf8("if ("@);
    assert(text("if (") =~= seq![0x69u8, 0x66u8, 0x20u8, 0x28u8]);
}

/// The bytes of the text `) `.
pub proof fn lemma_bytes_close_space()
    ensures
        text(") ") == seq![0x29u8, 0x20u8],
{
    reveal_strlit(") ");
    is_ascii_chars_encode_utf8(") "@);
    assert(text(") ") =~= seq![0x29u8, 0x20u8]);
}

/// The bytes of the text ` else `.
pub proof fn lemma_bytes_else_spaced()
    ensures
        text(" else ") == seq![0x20u8, 0x65u8, 0x6cu8, 0x73u8, 0x65u8, 0x20u8],
{
    reveal_strlit(" else ");
    is_ascii_chars_encode_utf8(" else "@);
    assert(text(" else ") =~= seq![0x20u8, 0x65u8, 0x6cu8, 0x73u8, 0x65u8, 0x20u8]);
}

/// The bytes of the text `while (`.
pub proof fn lemma_bytes_while_open()
    ensures
        text("while (") == seq![0x77u8, 0x68u8, 0x69u8, 0x6cu8, 0x65u8, 0x20u8, 0x28u8],
{
    reveal_strlit("while (");
    is_ascii_chars_encode_utf8("while ("@);
    assert(text("while (") =~= seq![0x77u8, 0x68u8, 0x69u8, 0x6cu8, 0x65u8, 0x20u8, 0x28u8]);
}

/// The bytes of the text `var `.
pub proof fn lemma_bytes_var_space()
    ensures
        text("var ") == seq![0x76u8, 0x61u8, 0x72u8, 0x20u8],
{
    reveal_strlit("var ");
    is_ascii_chars_encode_utf8("var "@);
    assert(text("var ") =~= seq![0x76u8, 0x61u8, 0x72u8, 0x20u8]);
}

/// The bytes of the text `, `.
pub proof fn lemma_bytes_comma_space()
    ensures
        text(", ") == seq![0x2cu8, 0x20u8],
{
    reveal_strlit(", ");
    is_ascii_chars_encode_utf8(", "@);
    assert(text(", ") =~= seq![0x2cu8, 0x20u8]);
}

/// The bytes of the text ` = `.
pub proof fn lemma_bytes_assign_spaced()
    ensures
        text(" = ") == seq![0x20u8, 0x3du8, 0x20u8],
{
    reveal_strlit(" = ");
    is_ascii_chars_encode_utf8(" = "@);
    assert(text(" = ") =~= seq![0x20u8, 0x3du8, 0x20u8]);
}

/// The bytes of the text ` ? `.
pub proof fn lemma_bytes_question_spaced()
    ensures
        text(" ? ") == seq![0x20u8, 0x3fu8, 0x20u8],
{
    reveal_strlit(" ? ");
    is_ascii_chars_encode_utf8(" ? "@);
    assert(text(" ? ") =~= seq![0x20u8, 0x3fu8, 0x20u8]);
}

/// The bytes of the text ` : `.
pub proof fn lemma_bytes_colon_spaced()
    ensures
        text(" : ") == seq![0x20u8, 0x3au8, 0x20u8],
{
    reveal_strlit(" : ");
    is_ascii_chars_encode_utf8(" : "@);
    assert(text(" : ") =~= seq![0x20u8, 0x3au8, 0x20u8]);
}

/// The keyword `print`, followed by something that does not continue it.
pub proof fn lemma_lex_keyword_print(t: Seq<u8>)
    requires
        ends_word(t),
    ensures
        text("print") == seq![0x70u8, 0x72u8, 0x69u8, 0x6eu8, 0x74u8],
        lex(text("print") + t) == (Ok::<TokenView, JsishErrorView>(TokenView::Print), t),
{
    reveal_strlit("else");
    reveal_strlit("false");
    reveal_strlit("function");
    reveal_strlit("if");
    reveal_strlit("new");
    reveal_strlit("print");
    reveal_strlit("return");
    reveal_strlit("this");
    reveal_strlit("true");
    reveal_strlit("typeof");
    reveal_strlit("undefined");
    reveal_strlit("var");
    reveal_strlit("while");
    reveal_strlit("gc");
    reveal_strlit("inUse");
    let c = "print"@;
    let w = text("print");
    is_ascii_chars_encode_utf8(c);
    assert(w =~= seq![0x70u8, 0x72u8, 0x69u8, 0x6eu8, 0x74u8]);
    encode_utf8_valid_utf8(c);
    encode_utf8_decode_utf8(c);
    assert(is_word(w));
    lemma_lex_word(w, t);
    assert(keyword_or_identifier(c) == TokenView::Print);
}

/// The keyword `if`, followed by something that does not continue it.
pub proof fn lemma_lex_keyword_if(t: Seq<u8>)
    requires
        ends_word(t),
    ensures
        text("if") == seq![0x69u8, 0x66u8],
        lex(text("if") + t) == (Ok::<TokenView, JsishErrorView>(TokenView::If), t),
{
    reveal_strlit("else");
    reveal_strlit("false");
    reveal_strlit("function");
    reveal_strlit("if");
    reveal_strlit("new");
    reveal_strlit("print");
    reveal_strlit("return");
    reveal_strlit("this");
    reveal_strlit("true");
    reveal_strlit("typeof");
    reveal_strlit("undefined");
    reveal_strlit("var");
    reveal_strlit("while");
    reveal_strlit("gc");
    reveal_strlit("inUse");
    let c = "if"@;
    let w = text("if");
    is_ascii_chars_encode_utf8(c);
    assert(w =~= seq![0x69u8, 0x66u8]);
    encode_utf8_valid_utf8(c);
    encode_utf8_decode_utf8(c);
    assert(is_word(w));
    lemma_lex_word(w, t);
    assert(keyword_or_identifier(c) == TokenView::If);
}

/// The keyword `else`, followed by something that does not continue it.
pub proof fn lemma_lex_keyword_else(t: Seq<u8>)
    requires
        ends_word(t),
    ensures
        text("else") == seq![0x65u8, 0x6cu8, 0x73u8, 0x65u8],
        lex(text("else") + t) == (Ok::<TokenView, JsishErrorView>(TokenView::Else), t),
{
    reveal_strlit("else");
    reveal_strlit("false");
    reveal_strlit("function");
    reveal_strlit("if");
    reveal_strlit("new");
    reveal_strlit("print");
    reveal_strlit("return");
    reveal_strlit("this");
    reveal_strlit("true");
    reveal_strlit("typeof");
    reveal_strlit("undefined");
    reveal_strlit("var");
    reveal_strlit("while");
    reveal_strlit("gc");
    reveal_strlit("inUse");
    let c = "else"@;
    let w = text("else");
    is_ascii_chars_encode_utf8(c);
    assert(w =~= seq![0x65u8, 0x6cu8, 0x73u8, 0x65u8]);
    encode_utf8_valid_utf8(c);
    encode_utf8_decode_utf8(c);
    assert(is_word(w));
    lemma_lex_word(w, t);
    assert(keyword_or_identifier(c) == TokenView::Else);
}

/// The keyword `while`, followed by something that does not continue it.
pub proof fn lemma_lex_keyword_while(t: Seq<u8>)
    requires
        ends_word(t),
    ensures
        text("while") == seq![0x77u8, 0x68u8, 0x69u8, 0x6cu8, 0x65u8],
        lex(text("while") + t) == (Ok::<TokenView, JsishErrorView>(TokenView::While), t),
{
    reveal_strlit("else");
    reveal_strlit("false");
    reveal_strlit("function");
    reveal_strlit("if");
    reveal_strlit("new");
    reveal_strlit("print");
    reveal_strlit("return");
    reveal_strlit("this");
    reveal_strlit("true");
    reveal_strlit("typeof");
    reveal_strlit("undefined");
    reveal_strlit("var");
    reveal_strlit("while");
    reveal_strlit("gc");
    reveal_strlit("inUse");
    let c = "while"@;
    let w = text("while");
    is_ascii_chars_encode_utf8(c);
    assert(w =~= seq![0x77u8, 0x68u8, 0x69u8, 0x6cu8, 0x65u8]);
    encode_utf8_valid_utf8(c);
    encode_utf8_decode_utf8(c);
    assert(is_word(w));
    lemma_lex_word(w, t);
    assert(keyword_or_identifier(c) == TokenView::While);
}

/// The keyword `var`, followed by something that does not continue it.
pub proof fn lemma_lex_keyword_var(t: Seq<u8>)
    requires
        ends_word(t),
    ensures
        text("var") == seq![0x76u8, 0x61u8, 0x72u8],
        lex(text("var") + t) == (Ok::<TokenView, JsishErrorView>(TokenView::Var), t),
{
    reveal_strlit("else");
    reveal_strlit("false");
    reveal_strlit("function");
    reveal_strlit("if");
    reveal_strlit("new");
    reveal_strlit("print");
    reveal_strlit("return");
    reveal_strlit("this");
    reveal_strlit("true");
    reveal_strlit("typeof");
    reveal_strlit("undefined");
    reveal_strlit("var");
    reveal_strlit("while");
    reveal_strlit("gc");
    reveal_strlit("inUse");
    let c = "var"@;
    let w = text("var");
    is_ascii_chars_encode_utf8(c);
    assert(w =~= seq![0x76u8, 0x61u8, 0x72u8]);
    encode_utf8_valid_utf8(c);
    encode_utf8_decode_utf8(c);
    assert(is_word(w));
    lemma_lex_word(w, t);
    assert(keyword_or_identifier(c) == TokenView::Var);
}

/// The keyword `true`, followed by something that does not continue it.
pub proof fn lemma_lex_keyword_true(t: Seq<u8>)
    requires
        ends_word(t),
    ensures
        text("true") == seq![0x74u8, 0x72u8, 0x75u8, 0x65u8],
        lex(text("true") + t) == (Ok::<TokenView, JsishErrorView>(TokenView::True), t),
{
    reveal_strlit("else");
    reveal_strlit("false");
    reveal_strlit("function");
    reveal_strlit("if");
    reveal_strlit("new");
    reveal_strlit("print");
    reveal_strlit("return");
    reveal_strlit("this");
    reveal_strlit("true");
    reveal_strlit("typeof");
    reveal_strlit("undefined");
    reveal_strlit("var");
    reveal_strlit("while");
    reveal_strlit("gc");
    reveal_strlit("inUse");
    let c = "true"@;
    let w = text("true");
    is_ascii_chars_encode_utf8(c);
    assert(w =~= seq![0x74u8, 0x72u8, 0x75u8, 0x65u8]);
    encode_utf8_valid_utf8(c);
    encode_utf8_decode_utf8(c);
    assert(is_word(w));
    lemma_lex_word(w, t);
    assert(keyword_or_identifier(c) == TokenView::True);
}

/// The keyword `false`, followed by something that does not continue it.
pub proof fn lemma_lex_keyword_false(t: Seq<u8>)
    requires
        ends_word(t),
    ensures
        text("false") == seq![0x66u8, 0x61u8, 0x6cu8, 0x73u8, 0x65u8],
        lex(text("false") + t) == (Ok::<TokenView, JsishErrorView>(TokenView::False), t),
{
    reveal_strlit("else");
    reveal_strlit("false");
    reveal_strlit("function");
    reveal_strlit("if");
    reveal_strlit("new");
    reveal_strlit("print");
    reveal_strlit("return");
    reveal_strlit("this");
    reveal_strlit("true");
    reveal_strlit("typeof");
    reveal_strlit("undefined");
    reveal_strlit("var");
    reveal_strlit("while");
    reveal_strlit("gc");
    reveal_strlit("inUse");
    let c = "false"@;
    let w = text("false");
    is_ascii_chars_encode_utf8(c);
    assert(w =~= seq![0x66u8, 0x61u8, 0x6cu8, 0x73u8, 0x65u8]);
    encode_utf8_valid_utf8(c);
    encode_utf8_decode_utf8(c);
    assert(is_word(w));
    lemma_lex_word(w, t);
    assert(keyword_or_identifier(c) == TokenView::False);
}

/// The keyword `undefined`, followed by something that does not continue it.
pub proof fn lemma_lex_keyword_undefined(t: Seq<u8>)
    requires
        ends_word(t),
    ensures
        text("undefined") == seq![
            0x75u8, 0x6eu8, 0x64u8, 0x65u8, 0x66u8, 0x69u8, 0x6eu8, 0x65u8, 0x64u8,
        ],
        lex(text("undefined") + t) == (Ok::<TokenView, JsishErrorView>(TokenView::Undefined), t),
{
    reveal_strlit("else");
    reveal_strlit("false");
    reveal_strlit("function");
    reveal_strlit("if");
    reveal_strlit("new");
    reveal_strlit("print");
    reveal_strlit("return");
    reveal_strlit("this");
    reveal_strlit("true");
    reveal_strlit("typeof");
    reveal_strlit("undefined");
    reveal_strlit("var");
    reveal_strlit("while");
    reveal_strlit("gc");
    reveal_strlit("inUse");
    let c = "undefined"@;
    let w = text("undefined");
    is_ascii_chars_encode_utf8(c);
    assert(w =~= seq![0x75u8, 0x6eu8, 0x64u8, 0x65u8, 0x66u8, 0x69u8, 0x6eu8, 0x65u8, 0x64u8]);
    encode_utf8_valid_utf8(c);
    encode_utf8_decode_utf8(c);
    assert(is_word(w));
    lemma_lex_word(w, t);
    assert(keyword_or_identifier(c) == TokenView::Undefined);
}

/// The keyword `typeof`, followed by something that does not continue it.
pub proof fn lemma_lex_keyword_typeof(t: Seq<u8>)
    requires
        ends_word(t),
    ensures
        text("typeof") == seq![0x74u8, 0x79u8, 0x70u8, 0x65u8, 0x6fu8, 0x66u8],
        lex(text("typeof") + t) == (Ok::<TokenView, JsishErrorView>(TokenView::Typeof), t),
{
    reveal_strlit("else");
    reveal_strlit("false");
    reveal_strlit("function");
    reveal_strlit("if");
    reveal_strlit("new");
    reveal_strlit("print");
    reveal_strlit("return");
    reveal_strlit("this");
    reveal_strlit("true");
    reveal_strlit("typeof");
    reveal_strlit("undefined");
    reveal_strlit("var");
    reveal_strlit("while");
    reveal_strlit("gc");
    reveal_strlit("inUse");
    let c = "typeof"@;
    let w = text("typeof");
    is_ascii_chars_encode_utf8(c);
    assert(w =~= seq![0x74u8, 0x79u8, 0x70u8, 0x65u8, 0x6fu8, 0x66u8]);
    encode_utf8_valid_utf8(c);
    encode_utf8_decode_utf8(c);
    assert(is_word(w));
    lemma_lex_word(w, t);
    assert(keyword_or_identifier(c) == TokenView::Typeof);
}

/// The token that spells a binary operator.
pub open spec fn binary_token(opr: BinaryOperator) -> TokenView {
    match opr {
        BinaryOperator::BopPlus => TokenView::Plus,
        BinaryOperator::BopMinus => TokenView::Minus,
        BinaryOperator::BopTimes => TokenView::Times,
        BinaryOperator::BopDivide => TokenView::Divide,
        BinaryOperator::BopMod => TokenView::Mod,
        BinaryOperator::BopEq => TokenView::Eq,
        BinaryOperator::BopNe => TokenView::Ne,
        BinaryOperator::BopLt => TokenView::Lt,
        BinaryOperator::BopGt => TokenView::Gt,
        BinaryOperator::BopGe => TokenView::Ge,
        BinaryOperator::BopLe => TokenView::Le,
        BinaryOperator::BopAnd => TokenView::And,
        BinaryOperator::BopOr => TokenView::Or,
        BinaryOperator::BopComma => TokenView::Comma,
    }
}

/// The level at which a binary operator stands.
pub open spec fn level_of(opr: BinaryOperator) -> BinaryLevel {
    match opr {
        BinaryOperator::BopPlus => BinaryLevel::Additive,
        BinaryOperator::BopMinus => BinaryLevel::Additive,
        BinaryOperator::BopTimes => BinaryLevel::Multiplicative,
        BinaryOperator::BopDivide => BinaryLevel::Multiplicative,
        BinaryOperator::BopMod => BinaryLevel::Multiplicative,
        BinaryOperator::BopEq => BinaryLevel::Equality,
        BinaryOperator::BopNe => BinaryLevel::Equality,
        BinaryOperator::BopLt => BinaryLevel::Relational,
        BinaryOperator::BopGt => BinaryLevel::Relational,
        BinaryOperator::BopGe => BinaryLevel::Relational,
        BinaryOperator::BopLe => BinaryLevel::Relational,
        BinaryOperator::BopAnd => BinaryLevel::And,
        BinaryOperator::BopOr => BinaryLevel::Or,
        BinaryOperator::BopComma => BinaryLevel::Comma,
    }
}

/// The token of a binary operator spells it at its own level and at no other.
pub proof fn lemma_binary_token(opr: BinaryOperator)
    ensures
        level_operator(level_of(opr), binary_token(opr)) == Some(opr),
        forall|level: BinaryLevel|
            level != level_of(opr) ==> #[trigger] level_operator(level, binary_token(opr)) is None,
        binary_token(opr) != TokenView::Question,
        binary_token(opr) != TokenView::Assign,
        binary_token(opr) != TokenView::Eof,
{
}

/// A binary operator as the pretty-printer writes it, with the space behind it.
pub proof fn lemma_lex_binary_symbol(opr: BinaryOperator, t: Seq<u8>)
    requires
        t.len() > 0,
        t[0] == 0x20,
    ensures
        lex(encode_utf8(binary_symbol(opr)) + t) == (
            Ok::<TokenView, JsishErrorView>(binary_token(opr)),
            t,
        ),
{
    match opr {
        BinaryOperator::BopPlus => {
            reveal_strlit("+");
            is_ascii_chars_encode_utf8("+"@);
            assert(encode_utf8(binary_symbol(opr)) =~= seq![0x2bu8]);
            lemma_lex_single(0x2bu8, t);
        },
        BinaryOperator::BopMinus => {
            reveal_strlit("-");
            is_ascii_chars_encode_utf8("-"@);
            assert(encode_utf8(binary_symbol(opr)) =~= seq![0x2du8]);
            lemma_lex_single(0x2du8, t);
        },
        BinaryOperator::BopTimes => {
            reveal_strlit("*");
            is_ascii_chars_encode_utf8("*"@);
            assert(encode_utf8(binary_symbol(opr)) =~= seq![0x2au8]);
            lemma_lex_single(0x2au8, t);
        },
        BinaryOperator::BopDivide => {
            reveal_strlit("/");
            is_ascii_chars_encode_utf8("/"@);
            assert(encode_utf8(binary_symbol(opr)) =~= seq![0x2fu8]);
            lemma_lex_single(0x2fu8, t);
        },
        BinaryOperator::BopMod => {
            reveal_strlit("%");
            is_ascii_chars_encode_utf8("%"@);
            assert(encode_utf8(binary_symbol(opr)) =~= seq![0x25u8]);
            lemma_lex_single(0x25u8, t);
        },
        BinaryOperator::BopEq => {
            reveal_strlit("==");
            is_ascii_chars_encode_utf8("=="@);
            assert(encode_utf8(binary_symbol(opr)) =~= seq![0x3du8, 0x3du8]);
            lemma_lex_with_eq(0x3du8, t);
        },
        BinaryOperator::BopNe => {
            reveal_strlit("!=");
            is_ascii_chars_encode_utf8("!="@);
            assert(encode_utf8(binary_symbol(opr)) =~= seq![0x21u8, 0x3du8]);
            lemma_lex_with_eq(0x21u8, t);
        },
        BinaryOperator::BopLt => {
            reveal_strlit("<");
            is_ascii_chars_encode_utf8("<"@);
            assert(encode_utf8(binary_symbol(opr)) =~= seq![0x3cu8]);
            lemma_lex_without_eq(0x3cu8, t);
        },
        BinaryOperator::BopGt => {
            reveal_strlit(">");
            is_ascii_chars_encode_utf8(">"@);
            assert(encode_utf8(binary_symbol(opr)) =~= seq![0x3eu8]);
            lemma_lex_without_eq(0x3eu8, t);
        },
        BinaryOperator::BopGe => {
            reveal_strlit(">=");
            is_ascii_chars_encode_utf8(">="@);
            assert(encode_utf8(binary_symbol(opr)) =~= seq![0x3eu8, 0x3du8]);
            lemma_lex_with_eq(0x3eu8, t);
        },
        BinaryOperator::BopLe => {
            reveal_strlit("<=");
            is_ascii_chars_encode_utf8("<="@);
            assert(encode_utf8(binary_symbol(opr)) =~= seq![0x3cu8, 0x3du8]);
            lemma_lex_with_eq(0x3cu8, t);
        },
        BinaryOperator::BopAnd => {
            reveal_strlit("&&");
            is_ascii_chars_encode_utf8("&&"@);
            assert(encode_utf8(binary_symbol(opr)) =~= seq![0x26u8, 0x26u8]);
            lemma_lex_double(0x26u8, t);
        },
        BinaryOperator::BopOr => {
            reveal_strlit("||");
            is_ascii_chars_encode_utf8("||"@);
            assert(encode_utf8(binary_symbol(opr)) =~= seq![0x7cu8, 0x7cu8]);
            lemma_lex_double(0x7cu8, t);
        },
        BinaryOperator::BopComma => {
            reveal_strlit(",");
            is_ascii_chars_encode_utf8(","@);
            assert(encode_utf8(binary_symbol(opr)) =~= seq![0x2cu8]);
            lemma_lex_single(0x2cu8, t);
        },
    }
}

/// The token that spells a prefix operator.
pub open spec fn prefix_token(opr: UnaryOperator) -> TokenView {
    match opr {
        UnaryOperator::UopNot => TokenView::Not,
        UnaryOperator::UopTypeof => TokenView::Typeof,
        UnaryOperator::UopMinus => TokenView::Minus,
    }
}

/// A prefix operator as the pretty-printer writes it: after it the input
/// stands at what follows, whether or not a space was written between.
pub proof fn lemma_lex_prefix(opr: UnaryOperator, t: Seq<u8>)
    requires
        t.len() > 0,
        t[0] != 0x3d,
    ensures
        lex(render_prefix(opr) + t).0 == Ok::<TokenView, JsishErrorView>(prefix_token(opr)),
        lex(lex(render_prefix(opr) + t).1) == lex(t),
        prefix_operator(prefix_token(opr)) == Some(opr),
{
    match opr {
        UnaryOperator::UopNot => {
            reveal_strlit("!");
            is_ascii_chars_encode_utf8("!"@);
            assert(render_prefix(opr) =~= seq![0x21u8]);
            lemma_lex_without_eq(0x21u8, t);
        },
        UnaryOperator::UopMinus => {
            reveal_strlit("-");
            is_ascii_chars_encode_utf8("-"@);
            assert(render_prefix(opr) =~= seq![0x2du8]);
            lemma_lex_single(0x2du8, t);
        },
        UnaryOperator::UopTypeof => {
            lemma_bytes_typeof_space();
            let rest = seq![0x20u8] + t;
            lemma_lex_keyword_typeof(rest);
            assert(render_prefix(opr) + t =~= text("typeof") + rest);
            crate::lexemes::lemma_lex_whitespace(0x20u8, t);
        },
    }
}

} // verus!
