//! What the tokenizer makes of the pieces of text that the pretty-printer
//! writes: white space, symbols, words, numbers and string literals, each
//! followed by an arbitrary rest of the input.
use vstd::prelude::*;
use vstd::utf8::*;
use crate::chars::{is_alphabetic, is_alphanumeric, is_digit, is_whitespace};
use crate::decimal::{
    decimal, decimal_digits, lemma_decimal_digits_are_digits, lemma_decimal_value_of_digits,
};
use crate::printer::{escape_byte, escape_bytes};
use crate::tokenizer::{
    keyword_or_identifier, lex, lex_token, optional_eq_symbol, run_length, single_symbol,
    skip_whitespace, string_body, unescape, CharClass, TokenView,
};
use crate::types::JsishErrorView;

verus! {

/// White space in front of the input does not change what is read from it.
pub proof fn lemma_lex_whitespace(b: u8, t: Seq<u8>)
    requires
        is_whitespace(b),
    ensures
        lex(seq![b] + t) == lex(t),
{
    reveal(lex);
    let s = seq![b] + t;
    assert(s.drop_first() =~= t);
    assert(skip_whitespace(s) == skip_whitespace(t));
}

/// An input that starts with a byte that is no white space is read from
/// that byte on.
pub proof fn lemma_lex_from(s: Seq<u8>)
    requires
        s.len() > 0,
        !is_whitespace(s[0]),
    ensures
        lex(s) == lex_token(s),
{
    reveal(lex);
}

/// A symbol of one character that is never the start of a longer one.
pub proof fn lemma_lex_single(b: u8, t: Seq<u8>)
    requires
        single_symbol(b) is Some,
    ensures
        lex(seq![b] + t) == (Ok::<TokenView, JsishErrorView>(single_symbol(b)->0), t),
{
    let s = seq![b] + t;
    lemma_lex_from(s);
    assert(s.drop_first() =~= t);
}

/// `&&` and `||`.
pub proof fn lemma_lex_double(b: u8, t: Seq<u8>)
    requires
        b == 0x26 || b == 0x7c,
    ensures
        lex(seq![b, b] + t) == (
            Ok::<TokenView, JsishErrorView>(
                if b == 0x26 {
                    TokenView::And
                } else {
                    TokenView::Or
                },
            ),
            t,
        ),
{
    let s = seq![b, b] + t;
    lemma_lex_from(s);
    assert(s.drop_first().drop_first() =~= t);
}

/// `=`, `<`, `>` and `!` with no `=` behind them.
pub proof fn lemma_lex_without_eq(b: u8, t: Seq<u8>)
    requires
        optional_eq_symbol(b) is Some,
        t.len() == 0 || t[0] != 0x3d,
    ensures
        lex(seq![b] + t) == (Ok::<TokenView, JsishErrorView>(optional_eq_symbol(b).unwrap().0), t),
{
    let s = seq![b] + t;
    lemma_lex_from(s);
    assert(s.drop_first() =~= t);
}

/// `==`, `<=`, `>=` and `!=`.
pub proof fn lemma_lex_with_eq(b: u8, t: Seq<u8>)
    requires
        optional_eq_symbol(b) is Some,
    ensures
        lex(seq![b, 0x3du8] + t) == (
            Ok::<TokenView, JsishErrorView>(optional_eq_symbol(b).unwrap().1),
            t,
        ),
{
    let s = seq![b, 0x3du8] + t;
    lemma_lex_from(s);
    assert(s.drop_first().drop_first() =~= t);
}

/// A run has exactly the length up to which the class holds and behind
/// which it does not.
pub proof fn lemma_run_length_is(s: Seq<u8>, class: CharClass, n: int)
    requires
        0 <= n <= s.len(),
        forall|i: int| 0 <= i < n ==> class.holds(#[trigger] s[i]),
        n == s.len() || !class.holds(s[n]),
    ensures
        run_length(s, class) == n,
    decreases n,
{
    if n > 0 {
        let r = s.drop_first();
        assert forall|i: int| 0 <= i < n - 1 implies class.holds(#[trigger] r[i]) by {
            assert(r[i] == s[i + 1]);
        }
        lemma_run_length_is(r, class, n - 1);
    }
}

/// Whether `w` is the text of a word: a letter, then letters and numeric
/// characters, as valid UTF-8.
pub open spec fn is_word(w: Seq<u8>) -> bool {
    &&& w.len() > 0
    &&& is_alphabetic(w[0])
    &&& forall|i: int| 0 <= i < w.len() ==> is_alphanumeric(#[trigger] w[i])
    &&& valid_utf8(w)
}

/// Whether `t` cannot continue a word or a number that stands in front of it.
pub open spec fn ends_word(t: Seq<u8>) -> bool {
    t.len() == 0 || !is_alphanumeric(t[0])
}

/// A word, followed by something that does not continue it.
pub proof fn lemma_lex_word(w: Seq<u8>, t: Seq<u8>)
    requires
        is_word(w),
        ends_word(t),
    ensures
        lex(w + t) == (
            Ok::<TokenView, JsishErrorView>(keyword_or_identifier(decode_utf8(w))),
            t,
        ),
{
    let s = w + t;
    assert(s[0] == w[0]);
    lemma_lex_from(s);
    assert forall|i: int| 0 <= i < w.len() implies CharClass::Alphanumeric.holds(
        #[trigger] s[i],
    ) by {
        assert(s[i] == w[i]);
    }
    if w.len() < s.len() {
        assert(s[w.len() as int] == t[0]);
    }
    lemma_run_length_is(s, CharClass::Alphanumeric, w.len() as int);
    assert(s.take(w.len() as int) =~= w);
    assert(s.skip(w.len() as int) =~= t);
}

/// A number that is not negative, followed by something that does not
/// continue it.
pub proof fn lemma_lex_number(n: i64, t: Seq<u8>)
    requires
        n >= 0,
        t.len() == 0 || !is_digit(t[0]),
    ensures
        lex(decimal(n as int) + t) == (Ok::<TokenView, JsishErrorView>(TokenView::Num(n)), t),
{
    let d = decimal_digits(n as nat);
    let s = d + t;
    lemma_decimal_digits_are_digits(n as nat);
    lemma_decimal_value_of_digits(n as nat);
    assert(s[0] == d[0]);
    lemma_lex_from(s);
    assert forall|i: int| 0 <= i < d.len() implies CharClass::Digit.holds(#[trigger] s[i]) by {
        assert(s[i] == d[i]);
    }
    if d.len() < s.len() {
        assert(s[d.len() as int] == t[0]);
    }
    lemma_run_length_is(s, CharClass::Digit, d.len() as int);
    assert(s.take(d.len() as int) =~= d);
    assert(s.skip(d.len() as int) =~= t);
}

/// The body of a string literal that was written with escapes reads back as
/// the bytes that were written.
pub proof fn lemma_string_body_of_escaped(b: Seq<u8>, t: Seq<u8>)
    ensures
        string_body(escape_bytes(b) + (seq![0x22u8] + t)) == (
            Ok::<Seq<u8>, JsishErrorView>(b),
            t,
        ),
    decreases b.len(),
{
    let s = escape_bytes(b) + (seq![0x22u8] + t);
    if b.len() == 0 {
        assert(s =~= seq![0x22u8] + t);
        assert(s.drop_first() =~= t);
        assert(b =~= Seq::<u8>::empty());
    } else {
        let rest = b.drop_first();
        let tail = escape_bytes(rest) + (seq![0x22u8] + t);
        lemma_string_body_of_escaped(rest, t);
        assert(s =~= escape_byte(b[0]) + tail);
        let e = escape_byte(b[0]);
        if e.len() == 2 {
            assert(s[0] == 0x5c);
            assert(unescape(s[1]) == Some(b[0]));
            assert(s.skip(2) =~= tail);
        } else {
            assert(s[0] == b[0]);
            assert(s.drop_first() =~= tail);
        }
        assert(seq![b[0]] + rest =~= b);
    }
}

/// A string literal that was written with escapes.
pub proof fn lemma_lex_string(b: Seq<u8>, t: Seq<u8>)
    requires
        valid_utf8(b),
    ensures
        lex(seq![0x22u8] + (escape_bytes(b) + (seq![0x22u8] + t))) == (
            Ok::<TokenView, JsishErrorView>(TokenView::Str(decode_utf8(b))),
            t,
        ),
{
    let s = seq![0x22u8] + (escape_bytes(b) + (seq![0x22u8] + t));
    lemma_lex_from(s);
    assert(s.drop_first() =~= escape_bytes(b) + (seq![0x22u8] + t));
    lemma_string_body_of_escaped(b, t);
}

} // verus!
