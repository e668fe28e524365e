use jsish::chars::{is_alphabetic, is_alphanumeric, is_digit, is_numeric, is_whitespace};
use jsish::tokenizer::{next_token, recognize_keywords, CharClass, Token};
use jsish::types::{ByteStream, JsishError};

fn stream(source: &[u8]) -> ByteStream {
    ByteStream::new(source.to_vec())
}

fn tokens(source: &[u8]) -> Vec<Result<Token, JsishError>> {
    let mut itr = stream(source);
    let mut out = Vec::new();
    loop {
        let tk = next_token(&mut itr);
        let done = matches!(tk, Ok(Token::TkEof)) || tk.is_err();
        out.push(tk);
        if done {
            return out;
        }
    }
}

fn ok_tokens(source: &[u8]) -> Vec<Token> {
    tokens(source).into_iter().map(|t| t.expect("a token")).collect()
}

#[test]
fn character_classes_are_those_of_the_characters_with_the_same_number() {
    for b in 0..=255u8 {
        let c = b as char;
        assert_eq!(is_alphabetic(b), c.is_alphabetic(), "alphabetic {}", b);
        assert_eq!(is_numeric(b), c.is_numeric(), "numeric {}", b);
        assert_eq!(is_alphanumeric(b), c.is_alphanumeric(), "alphanumeric {}", b);
        assert_eq!(is_whitespace(b), c.is_whitespace(), "whitespace {}", b);
        assert_eq!(is_digit(b), c.is_digit(10), "digit {}", b);
    }
}

#[test]
fn char_class_contains_follows_the_classes() {
    assert!(CharClass::Alphanumeric.contains(b'a'));
    assert!(CharClass::Alphanumeric.contains(b'7'));
    assert!(!CharClass::Alphanumeric.contains(b'_'));
    assert!(CharClass::Digit.contains(b'0'));
    assert!(!CharClass::Digit.contains(b'a'));
}

#[test]
fn single_character_symbols() {
    assert_eq!(
        ok_tokens(b"{ } ( ) [ ] , ; ? : . + - * / %"),
        vec![
            Token::TkLbrace,
            Token::TkRbrace,
            Token::TkLparen,
            Token::TkRparen,
            Token::TkLbracket,
            Token::TkRbracket,
            Token::TkComma,
            Token::TkSemi,
            Token::TkQuestion,
            Token::TkColon,
            Token::TkDot,
            Token::TkPlus,
            Token::TkMinus,
            Token::TkTimes,
            Token::TkDivide,
            Token::TkMod,
            Token::TkEof,
        ]
    );
}

#[test]
fn symbols_with_an_optional_equals_sign() {
    assert_eq!(
        ok_tokens(b"= == < <= > >= ! !="),
        vec![
            Token::TkAssign,
            Token::TkEq,
            Token::TkLt,
            Token::TkLe,
            Token::TkGt,
            Token::TkGe,
            Token::TkNot,
            Token::TkNe,
            Token::TkEof,
        ]
    );
    assert_eq!(ok_tokens(b"="), vec![Token::TkAssign, Token::TkEof]);
    assert_eq!(ok_tokens(b"<"), vec![Token::TkLt, Token::TkEof]);
    assert_eq!(
        ok_tokens(b"==="),
        vec![Token::TkEq, Token::TkAssign, Token::TkEof]
    );
}

#[test]
fn doubled_symbols() {
    assert_eq!(
        ok_tokens(b"&& ||"),
        vec![Token::TkAnd, Token::TkOr, Token::TkEof]
    );
}

#[test]
fn a_lone_ampersand_or_bar_is_an_error() {
    assert_eq!(tokens(b"& x"), vec![Err(JsishError::UnknownToken)]);
    assert_eq!(tokens(b"|x"), vec![Err(JsishError::UnknownToken)]);
    assert_eq!(tokens(b"&|"), vec![Err(JsishError::UnknownToken)]);
}

#[test]
fn the_input_ending_inside_a_doubled_symbol_is_an_error() {
    assert_eq!(tokens(b"&"), vec![Err(JsishError::UnexpectedEof)]);
    assert_eq!(tokens(b"x |"), vec![Ok(Token::TkId("x".to_string())), Err(JsishError::UnexpectedEof)]);
}

#[test]
fn a_character_that_starts_no_token_is_an_error() {
    assert_eq!(tokens(b"#"), vec![Err(JsishError::UnknownToken)]);
    assert_eq!(tokens(b"_x"), vec![Err(JsishError::UnknownToken)]);
    assert_eq!(tokens(b"'a'"), vec![Err(JsishError::UnknownToken)]);
}

#[test]
fn an_unknown_character_stays_in_the_stream() {
    let mut itr = stream(b"#");
    assert_eq!(next_token(&mut itr), Err(JsishError::UnknownToken));
    assert_eq!(itr.peek(), Some(b'#'));
}

#[test]
fn keywords() {
    assert_eq!(
        ok_tokens(
            b"else false function if new print return this true typeof undefined var while gc inUse"
        ),
        vec![
            Token::TkElse,
            Token::TkFalse,
            Token::TkFunction,
            Token::TkIf,
            Token::TkNew,
            Token::TkPrint,
            Token::TkReturn,
            Token::TkThis,
            Token::TkTrue,
            Token::TkTypeof,
            Token::TkUndefined,
            Token::TkVar,
            Token::TkWhile,
            Token::TkGc,
            Token::TkInUse,
            Token::TkEof,
        ]
    );
}

#[test]
fn recognize_keywords_tells_keywords_from_identifiers() {
    assert_eq!(recognize_keywords("while"), Token::TkWhile);
    assert_eq!(recognize_keywords("inUse"), Token::TkInUse);
    assert_eq!(recognize_keywords("InUse"), Token::TkId("InUse".to_string()));
    assert_eq!(recognize_keywords("whil"), Token::TkId("whil".to_string()));
    assert_eq!(recognize_keywords("whiles"), Token::TkId("whiles".to_string()));
    assert_eq!(recognize_keywords("x1"), Token::TkId("x1".to_string()));
}

#[test]
fn identifiers_are_maximal_runs_of_letters_and_digits() {
    assert_eq!(
        ok_tokens(b"abc x1y2 print1 a+b"),
        vec![
            Token::TkId("abc".to_string()),
            Token::TkId("x1y2".to_string()),
            Token::TkId("print1".to_string()),
            Token::TkId("a".to_string()),
            Token::TkPlus,
            Token::TkId("b".to_string()),
            Token::TkEof,
        ]
    );
}

#[test]
fn an_identifier_at_the_end_of_the_input_is_a_token() {
    assert_eq!(
        ok_tokens(b"abc"),
        vec![Token::TkId("abc".to_string()), Token::TkEof]
    );
}

#[test]
fn an_identifier_of_letters_outside_ascii() {
    // U+00EA is encoded as 0xC3 0xAA, and both bytes are letters of Latin-1.
    assert_eq!(
        ok_tokens("\u{ea}".as_bytes()),
        vec![Token::TkId("\u{ea}".to_string()), Token::TkEof]
    );
}

#[test]
fn a_word_that_is_not_valid_utf8_is_an_encoding_error() {
    // 0xC3 alone starts a sequence of two bytes that does not follow.
    assert_eq!(tokens(&[0xc3, b' ']), vec![Err(JsishError::InvalidEncoding)]);
    assert_eq!(tokens(&[b'a', 0xff]), vec![Err(JsishError::InvalidEncoding)]);
}

#[test]
fn numbers() {
    assert_eq!(
        ok_tokens(b"0 7 0042 9223372036854775807"),
        vec![
            Token::TkNum(0),
            Token::TkNum(7),
            Token::TkNum(42),
            Token::TkNum(i64::MAX),
            Token::TkEof,
        ]
    );
    assert_eq!(
        ok_tokens(b"12ab"),
        vec![Token::TkNum(12), Token::TkId("ab".to_string()), Token::TkEof]
    );
}

#[test]
fn a_number_that_does_not_fit_is_an_error() {
    assert_eq!(tokens(b"9223372036854775808"), vec![Err(JsishError::InvalidInteger)]);
    assert_eq!(
        tokens(b"99999999999999999999999999"),
        vec![Err(JsishError::InvalidInteger)]
    );
}

#[test]
fn a_minus_sign_is_a_token_of_its_own() {
    assert_eq!(
        ok_tokens(b"-7"),
        vec![Token::TkMinus, Token::TkNum(7), Token::TkEof]
    );
}

#[test]
fn string_literals() {
    assert_eq!(
        ok_tokens(b"\"\" \"abc\" \"a b;c\""),
        vec![
            Token::TkString(String::new()),
            Token::TkString("abc".to_string()),
            Token::TkString("a b;c".to_string()),
            Token::TkEof,
        ]
    );
}

#[test]
fn escape_sequences() {
    assert_eq!(
        ok_tokens(b"\"\\\\ \\\" \\n \\r \\t \\b \\v \\f\""),
        vec![
            Token::TkString("\\ \" \n \r \t \u{8} \u{b} \u{c}".to_string()),
            Token::TkEof,
        ]
    );
}

#[test]
fn a_string_literal_may_hold_any_valid_utf8() {
    assert_eq!(
        ok_tokens("\"h\u{e9}llo \u{4e16}\u{754c}\nline\"".as_bytes()),
        vec![
            Token::TkString("h\u{e9}llo \u{4e16}\u{754c}\nline".to_string()),
            Token::TkEof,
        ]
    );
}

#[test]
fn an_unknown_escape_is_an_error() {
    assert_eq!(tokens(b"\"\\q\""), vec![Err(JsishError::InvalidEscapeSequence)]);
    assert_eq!(tokens(b"\"\\0\""), vec![Err(JsishError::InvalidEscapeSequence)]);
}

#[test]
fn an_unterminated_string_is_an_error() {
    assert_eq!(tokens(b"\"abc"), vec![Err(JsishError::UnterminatedString)]);
    assert_eq!(tokens(b"\""), vec![Err(JsishError::UnterminatedString)]);
    assert_eq!(tokens(b"\"abc\\"), vec![Err(JsishError::UnterminatedString)]);
    assert_eq!(tokens(b"\"abc\\\""), vec![Err(JsishError::UnterminatedString)]);
}

#[test]
fn a_string_that_is_not_valid_utf8_is_an_encoding_error() {
    assert_eq!(tokens(&[b'"', 0xff, b'"']), vec![Err(JsishError::InvalidEncoding)]);
}

#[test]
fn white_space_is_skipped() {
    assert_eq!(
        ok_tokens(b" \t\r\n\x0b\x0c x \xa0\x85 y "),
        vec![
            Token::TkId("x".to_string()),
            Token::TkId("y".to_string()),
            Token::TkEof,
        ]
    );
}

#[test]
fn the_end_of_the_input_is_given_again_and_again() {
    let mut itr = stream(b"x ");
    assert_eq!(next_token(&mut itr), Ok(Token::TkId("x".to_string())));
    assert_eq!(next_token(&mut itr), Ok(Token::TkEof));
    assert_eq!(next_token(&mut itr), Ok(Token::TkEof));
    assert_eq!(next_token(&mut itr), Ok(Token::TkEof));
    let mut empty = stream(b"");
    assert_eq!(next_token(&mut empty), Ok(Token::TkEof));
    assert_eq!(next_token(&mut empty), Ok(Token::TkEof));
}

#[test]
fn the_stream_stands_immediately_behind_the_token() {
    let mut itr = stream(b"  ab+ 12");
    assert_eq!(next_token(&mut itr), Ok(Token::TkId("ab".to_string())));
    assert_eq!(itr.peek(), Some(b'+'));
    assert_eq!(next_token(&mut itr), Ok(Token::TkPlus));
    assert_eq!(itr.peek(), Some(b' '));
    assert_eq!(next_token(&mut itr), Ok(Token::TkNum(12)));
    assert_eq!(itr.peek(), None);
}

#[test]
fn byte_stream_peeks_and_takes() {
    let mut itr = stream(b"ab");
    assert_eq!(itr.peek(), Some(b'a'));
    assert_eq!(itr.peek(), Some(b'a'));
    assert_eq!(itr.next(), Some(b'a'));
    assert_eq!(itr.next(), Some(b'b'));
    assert_eq!(itr.peek(), None);
    assert_eq!(itr.next(), None);
    assert_eq!(itr.next(), None);
}

#[test]
fn tokens_compare_by_kind_and_payload() {
    assert_eq!(Token::TkNum(1), Token::TkNum(1));
    assert_ne!(Token::TkNum(1), Token::TkNum(2));
    assert_ne!(Token::TkId("a".to_string()), Token::TkString("a".to_string()));
    assert_ne!(Token::TkLt, Token::TkLe);
    assert_eq!(Token::TkId("a".to_string()).clone(), Token::TkId("a".to_string()));
}

#[test]
fn token_text() {
    assert_eq!(Token::TkLbrace.to_text(), "{");
    assert_eq!(Token::TkAnd.to_text(), "&&");
    assert_eq!(Token::TkLe.to_text(), "<=");
    assert_eq!(Token::TkTypeof.to_text(), "typeof");
    assert_eq!(Token::TkInUse.to_text(), "InUse");
    assert_eq!(Token::TkEof.to_text(), "eof");
    assert_eq!(Token::TkNum(42).to_text(), "42");
    assert_eq!(Token::TkNum(-42).to_text(), "-42");
    assert_eq!(Token::TkNum(i64::MIN).to_text(), "-9223372036854775808");
    assert_eq!(Token::TkId("abc".to_string()).to_text(), "abc");
    assert_eq!(Token::TkString("a b".to_string()).to_text(), "a b");
}
