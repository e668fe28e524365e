//! Lexical analysis: from a byte stream to tokens, one token per call.
use vstd::prelude::*;
use vstd::string::*;
use vstd::utf8::*;
use vstd::std_specs::cmp::PartialEqSpecImpl;
use crate::chars::{is_alphabetic, is_alphanumeric, is_digit, is_whitespace};
use crate::decimal::{decimal, decimal_value, lemma_decimal_is_ascii, parse_decimal, push_decimal};
use crate::text::{
    bytes_eq, lemma_ascii_is_valid_utf8, lemma_encode_utf8_injective, string_from_utf8,
    string_of_valid_utf8,
};
use crate::types::{ByteStream, JsishError, JsishErrorView, JsishResult, first_byte};

verus! {

/// A lexical token. Numbers, identifiers and string literals carry their
/// payload; a string literal carries its text after escape processing.
#[derive(Clone, Debug)]
pub enum Token {
    TkLbrace,
    TkRbrace,
    TkLparen,
    TkRparen,
    TkLbracket,
    TkRbracket,
    TkComma,
    TkSemi,
    TkQuestion,
    TkColon,
    TkDot,
    TkPlus,
    TkMinus,
    TkTimes,
    TkDivide,
    TkMod,
    TkAnd,
    TkOr,
    TkAssign,
    TkEq,
    TkLt,
    TkLe,
    TkGt,
    TkGe,
    TkNot,
    TkNe,
    TkElse,
    TkFalse,
    TkFunction,
    TkIf,
    TkNew,
    TkPrint,
    TkReturn,
    TkThis,
    TkTrue,
    TkTypeof,
    TkUndefined,
    TkVar,
    TkWhile,
    TkGc,
    TkInUse,
    TkNum(i64),
    TkId(String),
    TkString(String),
    TkEof,
}

/// A token as a mathematical value.
pub enum TokenView {
    Lbrace,
    Rbrace,
    Lparen,
    Rparen,
    Lbracket,
    Rbracket,
    Comma,
    Semi,
    Question,
    Colon,
    Dot,
    Plus,
    Minus,
    Times,
    Divide,
    Mod,
    And,
    Or,
    Assign,
    Eq,
    Lt,
    Le,
    Gt,
    Ge,
    Not,
    Ne,
    Else,
    False,
    Function,
    If,
    New,
    Print,
    Return,
    This,
    True,
    Typeof,
    Undefined,
    Var,
    While,
    Gc,
    InUse,
    Num(i64),
    Id(Seq<char>),
    Str(Seq<char>),
    Eof,
}

impl View for Token {
    type V = TokenView;

    open spec fn view(&self) -> TokenView {
        match self {
            Token::TkLbrace => TokenView::Lbrace,
            Token::TkRbrace => TokenView::Rbrace,
            Token::TkLparen => TokenView::Lparen,
            Token::TkRparen => TokenView::Rparen,
            Token::TkLbracket => TokenView::Lbracket,
            Token::TkRbracket => TokenView::Rbracket,
            Token::TkComma => TokenView::Comma,
            Token::TkSemi => TokenView::Semi,
            Token::TkQuestion => TokenView::Question,
            Token::TkColon => TokenView::Colon,
            Token::TkDot => TokenView::Dot,
            Token::TkPlus => TokenView::Plus,
            Token::TkMinus => TokenView::Minus,
            Token::TkTimes => TokenView::Times,
            Token::TkDivide => TokenView::Divide,
            Token::TkMod => TokenView::Mod,
            Token::TkAnd => TokenView::And,
            Token::TkOr => TokenView::Or,
            Token::TkAssign => TokenView::Assign,
            Token::TkEq => TokenView::Eq,
            Token::TkLt => TokenView::Lt,
            Token::TkLe => TokenView::Le,
            Token::TkGt => TokenView::Gt,
            Token::TkGe => TokenView::Ge,
            Token::TkNot => TokenView::Not,
            Token::TkNe => TokenView::Ne,
            Token::TkElse => TokenView::Else,
            Token::TkFalse => TokenView::False,
            Token::TkFunction => TokenView::Function,
            Token::TkIf => TokenView::If,
            Token::TkNew => TokenView::New,
            Token::TkPrint => TokenView::Print,
            Token::TkReturn => TokenView::Return,
            Token::TkThis => TokenView::This,
            Token::TkTrue => TokenView::True,
            Token::TkTypeof => TokenView::Typeof,
            Token::TkUndefined => TokenView::Undefined,
            Token::TkVar => TokenView::Var,
            Token::TkWhile => TokenView::While,
            Token::TkGc => TokenView::Gc,
            Token::TkInUse => TokenView::InUse,
            Token::TkEof => TokenView::Eof,
            Token::TkNum(n) => TokenView::Num(*n),
            Token::TkId(s) => TokenView::Id(s@),
            Token::TkString(s) => TokenView::Str(s@),
        }
    }
}

impl PartialEq for Token {
    /// Whether two tokens are of the same kind and carry the same payload.
    fn eq(&self, other: &Token) -> (r: bool) {
        match (self, other) {
            (Token::TkLbrace, Token::TkLbrace) => true,
            (Token::TkRbrace, Token::TkRbrace) => true,
            (Token::TkLparen, Token::TkLparen) => true,
            (Token::TkRparen, Token::TkRparen) => true,
            (Token::TkLbracket, Token::TkLbracket) => true,
            (Token::TkRbracket, Token::TkRbracket) => true,
            (Token::TkComma, Token::TkComma) => true,
            (Token::TkSemi, Token::TkSemi) => true,
            (Token::TkQuestion, Token::TkQuestion) => true,
            (Token::TkColon, Token::TkColon) => true,
            (Token::TkDot, Token::TkDot) => true,
            (Token::TkPlus, Token::TkPlus) => true,
            (Token::TkMinus, Token::TkMinus) => true,
            (Token::TkTimes, Token::TkTimes) => true,
            (Token::TkDivide, Token::TkDivide) => true,
            (Token::TkMod, Token::TkMod) => true,
            (Token::TkAnd, Token::TkAnd) => true,
            (Token::TkOr, Token::TkOr) => true,
            (Token::TkAssign, Token::TkAssign) => true,
            (Token::TkEq, Token::TkEq) => true,
            (Token::TkLt, Token::TkLt) => true,
            (Token::TkLe, Token::TkLe) => true,
            (Token::TkGt, Token::TkGt) => true,
            (Token::TkGe, Token::TkGe) => true,
            (Token::TkNot, Token::TkNot) => true,
            (Token::TkNe, Token::TkNe) => true,
            (Token::TkElse, Token::TkElse) => true,
            (Token::TkFalse, Token::TkFalse) => true,
            (Token::TkFunction, Token::TkFunction) => true,
            (Token::TkIf, Token::TkIf) => true,
            (Token::TkNew, Token::TkNew) => true,
            (Token::TkPrint, Token::TkPrint) => true,
            (Token::TkReturn, Token::TkReturn) => true,
            (Token::TkThis, Token::TkThis) => true,
            (Token::TkTrue, Token::TkTrue) => true,
            (Token::TkTypeof, Token::TkTypeof) => true,
            (Token::TkUndefined, Token::TkUndefined) => true,
            (Token::TkVar, Token::TkVar) => true,
            (Token::TkWhile, Token::TkWhile) => true,
            (Token::TkGc, Token::TkGc) => true,
            (Token::TkInUse, Token::TkInUse) => true,
            (Token::TkEof, Token::TkEof) => true,
            (Token::TkNum(a), Token::TkNum(b)) => *a == *b,
            (Token::TkId(a), Token::TkId(b)) => *a == *b,
            (Token::TkString(a), Token::TkString(b)) => *a == *b,
            _ => false,
        }
    }
}

impl PartialEqSpecImpl for Token {
    open spec fn obeys_eq_spec() -> bool {
        true
    }

    open spec fn eq_spec(&self, other: &Token) -> bool {
        self@ == other@
    }
}

/// The text by which a token is shown in messages: the spelling of a fixed
/// token, the decimal text of a number, the bare text of an identifier or a
/// string literal, and `eof` for the end of input.
pub open spec fn token_text(t: TokenView) -> Seq<char> {
    match t {
        TokenView::Lbrace => "{"@,
        TokenView::Rbrace => "}"@,
        TokenView::Lparen => "("@,
        TokenView::Rparen => ")"@,
        TokenView::Lbracket => "["@,
        TokenView::Rbracket => "]"@,
        TokenView::Comma => ","@,
        TokenView::Semi => ";"@,
        TokenView::Question => "?"@,
        TokenView::Colon => ":"@,
        TokenView::Dot => "."@,
        TokenView::Plus => "+"@,
        TokenView::Minus => "-"@,
        TokenView::Times => "*"@,
        TokenView::Divide => "/"@,
        TokenView::Mod => "%"@,
        TokenView::And => "&&"@,
        TokenView::Or => "||"@,
        TokenView::Assign => "="@,
        TokenView::Eq => "=="@,
        TokenView::Lt => "<"@,
        TokenView::Le => "<="@,
        TokenView::Gt => ">"@,
        TokenView::Ge => ">="@,
        TokenView::Not => "!"@,
        TokenView::Ne => "!="@,
        TokenView::Else => "else"@,
        TokenView::False => "false"@,
        TokenView::Function => "function"@,
        TokenView::If => "if"@,
        TokenView::New => "new"@,
        TokenView::Print => "print"@,
        TokenView::Return => "return"@,
        TokenView::This => "this"@,
        TokenView::True => "true"@,
        TokenView::Typeof => "typeof"@,
        TokenView::Undefined => "undefined"@,
        TokenView::Var => "var"@,
        TokenView::While => "while"@,
        TokenView::Gc => "gc"@,
        TokenView::InUse => "InUse"@,
        TokenView::Eof => "eof"@,
        TokenView::Num(n) => decode_utf8(decimal(n as int)),
        TokenView::Id(s) => s,
        TokenView::Str(s) => s,
    }
}

impl Token {
    /// The text by which this token is shown in messages.
    pub fn to_text(&self) -> (res: String)
        ensures
            res@ == token_text(self@),
    {
        match self {
            Token::TkLbrace => String::from_str("{"),
            Token::TkRbrace => String::from_str("}"),
            Token::TkLparen => String::from_str("("),
            Token::TkRparen => String::from_str(")"),
            Token::TkLbracket => String::from_str("["),
            Token::TkRbracket => String::from_str("]"),
            Token::TkComma => String::from_str(","),
            Token::TkSemi => String::from_str(";"),
            Token::TkQuestion => String::from_str("?"),
            Token::TkColon => String::from_str(":"),
            Token::TkDot => String::from_str("."),
            Token::TkPlus => String::from_str("+"),
            Token::TkMinus => String::from_str("-"),
            Token::TkTimes => String::from_str("*"),
            Token::TkDivide => String::from_str("/"),
            Token::TkMod => String::from_str("%"),
            Token::TkAnd => String::from_str("&&"),
            Token::TkOr => String::from_str("||"),
            Token::TkAssign => String::from_str("="),
            Token::TkEq => String::from_str("=="),
            Token::TkLt => String::from_str("<"),
            Token::TkLe => String::from_str("<="),
            Token::TkGt => String::from_str(">"),
            Token::TkGe => String::from_str(">="),
            Token::TkNot => String::from_str("!"),
            Token::TkNe => String::from_str("!="),
            Token::TkElse => String::from_str("else"),
            Token::TkFalse => String::from_str("false"),
            Token::TkFunction => String::from_str("function"),
            Token::TkIf => String::from_str("if"),
            Token::TkNew => String::from_str("new"),
            Token::TkPrint => String::from_str("print"),
            Token::TkReturn => String::from_str("return"),
            Token::TkThis => String::from_str("this"),
            Token::TkTrue => String::from_str("true"),
            Token::TkTypeof => String::from_str("typeof"),
            Token::TkUndefined => String::from_str("undefined"),
            Token::TkVar => String::from_str("var"),
            Token::TkWhile => String::from_str("while"),
            Token::TkGc => String::from_str("gc"),
            Token::TkInUse => String::from_str("InUse"),
            Token::TkEof => String::from_str("eof"),
            Token::TkNum(n) => {
                let mut buf: Vec<u8> = Vec::new();
                push_decimal(*n, &mut buf);
                proof {
                    assert(buf@ =~= decimal(*n as int));
                    lemma_decimal_is_ascii(*n as int);
                    lemma_ascii_is_valid_utf8(buf@);
                }
                string_of_valid_utf8(buf)
            },
            Token::TkId(s) => s.clone(),
            Token::TkString(s) => s.clone(),
        }
    }
}


/// What a tokenizing step gives: a token or an error, and the input that is
/// left after it.
pub type Lexed = (Result<TokenView, JsishErrorView>, Seq<u8>);

/// The input after its leading white space.
pub open spec fn skip_whitespace(s: Seq<u8>) -> Seq<u8>
    decreases s.len(),
{
    if s.len() > 0 && is_whitespace(s[0]) {
        skip_whitespace(s.drop_first())
    } else {
        s
    }
}

/// The two classes of characters that make up a run: the characters of a
/// word and the decimal digits.
#[derive(Clone, Copy, Debug, PartialEq, Eq, Structural)]
pub enum CharClass {
    Alphanumeric,
    Digit,
}

impl CharClass {
    /// Whether the byte `b` belongs to this class.
    pub open spec fn holds(self, b: u8) -> bool {
        match self {
            CharClass::Alphanumeric => is_alphanumeric(b),
            CharClass::Digit => is_digit(b),
        }
    }

    /// Whether the byte `b` belongs to this class.
    pub fn contains(&self, b: u8) -> (r: bool)
        ensures
            r == self.holds(b),
    {
        match self {
            CharClass::Alphanumeric => is_alphanumeric(b),
            CharClass::Digit => is_digit(b),
        }
    }
}

/// The length of the longest prefix of `s` whose bytes all belong to `class`.
pub open spec fn run_length(s: Seq<u8>, class: CharClass) -> nat
    decreases s.len(),
{
    if s.len() > 0 && class.holds(s[0]) {
        1 + run_length(s.drop_first(), class)
    } else {
        0
    }
}

/// The token of a word: its keyword if it is one, else an identifier.
pub open spec fn keyword_or_identifier(word: Seq<char>) -> TokenView {
    if word == "else"@ {
        TokenView::Else
    } else if word == "false"@ {
        TokenView::False
    } else if word == "function"@ {
        TokenView::Function
    } else if word == "if"@ {
        TokenView::If
    } else if word == "new"@ {
        TokenView::New
    } else if word == "print"@ {
        TokenView::Print
    } else if word == "return"@ {
        TokenView::Return
    } else if word == "this"@ {
        TokenView::This
    } else if word == "true"@ {
        TokenView::True
    } else if word == "typeof"@ {
        TokenView::Typeof
    } else if word == "undefined"@ {
        TokenView::Undefined
    } else if word == "var"@ {
        TokenView::Var
    } else if word == "while"@ {
        TokenView::While
    } else if word == "gc"@ {
        TokenView::Gc
    } else if word == "inUse"@ {
        TokenView::InUse
    } else {
        TokenView::Id(word)
    }
}

/// The character that stands behind a backslash in a string literal, if the
/// escape is known.
pub open spec fn unescape(b: u8) -> Option<u8> {
    if b == 0x5c {
        Some(0x5cu8)
    } else if b == 0x22 {
        Some(0x22u8)
    } else if b == 0x6e {
        Some(0x0au8)
    } else if b == 0x72 {
        Some(0x0du8)
    } else if b == 0x74 {
        Some(0x09u8)
    } else if b == 0x62 {
        Some(0x08u8)
    } else if b == 0x76 {
        Some(0x0bu8)
    } else if b == 0x66 {
        Some(0x0cu8)
    } else {
        None
    }
}

/// What the body of a string literal gives: its bytes after escape processing
/// or an error, and the input that is left.
pub type LexedBody = (Result<Seq<u8>, JsishErrorView>, Seq<u8>);

/// Puts the bytes `front` before the bytes of a string body.
pub open spec fn with_front(front: Seq<u8>, body: LexedBody) -> LexedBody {
    match body.0 {
        Ok(bytes) => (Ok(front + bytes), body.1),
        Err(e) => (Err(e), body.1),
    }
}

/// The body of a string literal, read from just behind the opening quote up
/// to and including the closing quote.
pub open spec fn string_body(s: Seq<u8>) -> LexedBody
    decreases s.len(),
{
    if s.len() == 0 {
        (Err(JsishErrorView::UnterminatedString), s)
    } else if s[0] == 0x22 {
        (Ok(Seq::empty()), s.drop_first())
    } else if s[0] == 0x5c {
        if s.len() == 1 {
            (Err(JsishErrorView::UnterminatedString), s.drop_first())
        } else {
            match unescape(s[1]) {
                Some(b) => with_front(seq![b], string_body(s.skip(2))),
                None => (Err(JsishErrorView::InvalidEscapeSequence), s.skip(2)),
            }
        }
    } else {
        with_front(seq![s[0]], string_body(s.drop_first()))
    }
}

/// A string literal, read from its opening quote.
pub open spec fn lex_string(s: Seq<u8>) -> Lexed
    recommends
        s.len() > 0,
{
    let body = string_body(s.drop_first());
    match body.0 {
        Ok(bytes) => if valid_utf8(bytes) {
            (Ok(TokenView::Str(decode_utf8(bytes))), body.1)
        } else {
            (Err(JsishErrorView::InvalidEncoding), body.1)
        },
        Err(e) => (Err(e), body.1),
    }
}

/// A word: the longest run of letters and numeric characters, read as a
/// keyword or an identifier.
pub open spec fn lex_word(s: Seq<u8>) -> Lexed {
    let n = run_length(s, CharClass::Alphanumeric) as int;
    if valid_utf8(s.take(n)) {
        (Ok(keyword_or_identifier(decode_utf8(s.take(n)))), s.skip(n))
    } else {
        (Err(JsishErrorView::InvalidEncoding), s.skip(n))
    }
}

/// A number: the longest run of decimal digits, read as a 64-bit integer.
pub open spec fn lex_number(s: Seq<u8>) -> Lexed {
    let n = run_length(s, CharClass::Digit) as int;
    if decimal_value(s.take(n)) <= i64::MAX {
        (Ok(TokenView::Num(decimal_value(s.take(n)) as i64)), s.skip(n))
    } else {
        (Err(JsishErrorView::InvalidInteger), s.skip(n))
    }
}

/// The token of a symbol that is one character long and never longer.
pub open spec fn single_symbol(b: u8) -> Option<TokenView> {
    if b == 0x7b {
        Some(TokenView::Lbrace)
    } else if b == 0x7d {
        Some(TokenView::Rbrace)
    } else if b == 0x28 {
        Some(TokenView::Lparen)
    } else if b == 0x29 {
        Some(TokenView::Rparen)
    } else if b == 0x5b {
        Some(TokenView::Lbracket)
    } else if b == 0x5d {
        Some(TokenView::Rbracket)
    } else if b == 0x2c {
        Some(TokenView::Comma)
    } else if b == 0x3b {
        Some(TokenView::Semi)
    } else if b == 0x3f {
        Some(TokenView::Question)
    } else if b == 0x3a {
        Some(TokenView::Colon)
    } else if b == 0x2e {
        Some(TokenView::Dot)
    } else if b == 0x2b {
        Some(TokenView::Plus)
    } else if b == 0x2d {
        Some(TokenView::Minus)
    } else if b == 0x2a {
        Some(TokenView::Times)
    } else if b == 0x2f {
        Some(TokenView::Divide)
    } else if b == 0x25 {
        Some(TokenView::Mod)
    } else {
        None
    }
}

/// The two tokens of a symbol that an `=` may follow: alone, and with the `=`.
pub open spec fn optional_eq_symbol(b: u8) -> Option<(TokenView, TokenView)> {
    if b == 0x3d {
        Some((TokenView::Assign, TokenView::Eq))
    } else if b == 0x3c {
        Some((TokenView::Lt, TokenView::Le))
    } else if b == 0x3e {
        Some((TokenView::Gt, TokenView::Ge))
    } else if b == 0x21 {
        Some((TokenView::Not, TokenView::Ne))
    } else {
        None
    }
}

/// A punctuation or operator symbol.
pub open spec fn lex_symbol(s: Seq<u8>) -> Lexed
    recommends
        s.len() > 0,
{
    let b = s[0];
    let rest = s.drop_first();
    if single_symbol(b) is Some {
        (Ok(single_symbol(b).unwrap()), rest)
    } else if b == 0x26 || b == 0x7c {
        if rest.len() == 0 {
            (Err(JsishErrorView::UnexpectedEof), rest)
        } else if rest[0] == b {
            (Ok(if b == 0x26 { TokenView::And } else { TokenView::Or }), rest.drop_first())
        } else {
            (Err(JsishErrorView::UnknownToken), rest)
        }
    } else if optional_eq_symbol(b) is Some {
        if rest.len() > 0 && rest[0] == 0x3d {
            (Ok(optional_eq_symbol(b).unwrap().1), rest.drop_first())
        } else {
            (Ok(optional_eq_symbol(b).unwrap().0), rest)
        }
    } else {
        (Err(JsishErrorView::UnknownToken), s)
    }
}

/// One token, read from an input that starts with its first character.
pub open spec fn lex_token(s: Seq<u8>) -> Lexed
    recommends
        s.len() > 0,
{
    if is_alphabetic(s[0]) {
        lex_word(s)
    } else if is_digit(s[0]) {
        lex_number(s)
    } else if s[0] == 0x22 {
        lex_string(s)
    } else {
        lex_symbol(s)
    }
}

/// The next token of the input `s` and the input that is left after it.
///
/// White space before the token is skipped. At the end of the input the
/// token is `Eof`, and stays so however often it is asked for.
#[verifier::opaque]
pub open spec fn lex(s: Seq<u8>) -> Lexed {
    let t = skip_whitespace(s);
    if t.len() == 0 {
        (Ok(TokenView::Eof), t)
    } else {
        lex_token(t)
    }
}

/// Skipping white space leaves a suffix of the input that does not start
/// with white space.
pub proof fn lemma_skip_whitespace(s: Seq<u8>)
    ensures
        skip_whitespace(s).len() <= s.len(),
        skip_whitespace(s) == s.skip(s.len() - skip_whitespace(s).len()),
        skip_whitespace(s).len() > 0 ==> !is_whitespace(skip_whitespace(s)[0]),
    decreases s.len(),
{
    if s.len() > 0 && is_whitespace(s[0]) {
        lemma_skip_whitespace(s.drop_first());
        let t = skip_whitespace(s);
        assert(t =~= s.skip(s.len() - t.len()));
    } else {
        assert(s =~= s.skip(0));
    }
}

/// A run is no longer than the input, all of its bytes belong to the class,
/// and the byte behind it, if there is one, does not.
pub proof fn lemma_run_length(s: Seq<u8>, class: CharClass)
    ensures
        run_length(s, class) <= s.len(),
        forall|i: int| 0 <= i < run_length(s, class) ==> class.holds(#[trigger] s[i]),
        run_length(s, class) < s.len() ==> !class.holds(s[run_length(s, class) as int]),
    decreases s.len(),
{
    if s.len() > 0 && class.holds(s[0]) {
        lemma_run_length(s.drop_first(), class);
        let n = run_length(s.drop_first(), class);
        assert forall|i: int| 0 <= i < run_length(s, class) implies class.holds(
            #[trigger] s[i],
        ) by {
            if i > 0 {
                assert(s[i] == s.drop_first()[i - 1]);
            }
        }
        if run_length(s, class) < s.len() {
            assert(s[run_length(s, class) as int] == s.drop_first()[n as int]);
        }
    }
}

/// The body of a string literal consumes at least its closing quote.
pub proof fn lemma_string_body_progress(s: Seq<u8>)
    ensures
        string_body(s).1.len() <= s.len(),
        string_body(s).0 is Ok ==> string_body(s).1.len() < s.len(),
    decreases s.len(),
{
    if s.len() == 0 {
    } else if s[0] == 0x22 {
    } else if s[0] == 0x5c {
        if s.len() > 1 {
            lemma_string_body_progress(s.skip(2));
        }
    } else {
        lemma_string_body_progress(s.drop_first());
    }
}

/// Tokenizing never gives input back, and every token but `Eof` consumes
/// at least one byte.
pub proof fn lemma_lex_progress(s: Seq<u8>)
    ensures
        lex(s).1.len() <= s.len(),
        (lex(s).0 matches Ok(t) && t != TokenView::Eof) ==> lex(s).1.len() < s.len(),
{
    reveal(lex);
    lemma_skip_whitespace(s);
    let t = skip_whitespace(s);
    if t.len() > 0 {
        lemma_run_length(t, CharClass::Alphanumeric);
        lemma_run_length(t, CharClass::Digit);
        lemma_string_body_progress(t.drop_first());
        if is_alphabetic(t[0]) {
            assert(CharClass::Alphanumeric.holds(t[0]));
        } else if is_digit(t[0]) {
            assert(CharClass::Digit.holds(t[0]));
        }
    }
}

/// Whether an executable result and the input left in the stream are what
/// the tokenizing step `l` gives.
pub open spec fn lexed_as(res: JsishResult<Token>, rest: Seq<u8>, l: Lexed) -> bool {
    &&& rest == l.1
    &&& match l.0 {
        Ok(t) => res is Ok && res.unwrap()@ == t,
        Err(e) => res is Err && res.unwrap_err()@ == e,
    }
}

/// The next byte of the stream, which stays there. The end of the input is
/// an error: the caller is in the middle of a token.
fn lookahead(itr: &ByteStream) -> (res: JsishResult<u8>)
    ensures
        match first_byte(itr@) {
            Some(b) => res == Ok::<u8, JsishError>(b),
            None => res is Err && res.unwrap_err()@ == JsishErrorView::UnexpectedEof,
        },
{
    match itr.peek() {
        Some(b) => Ok(b),
        None => Err(JsishError::UnexpectedEof),
    }
}

/// The token of a symbol that is one character long and never longer.
fn single_symbol_token(b: u8) -> (res: Option<Token>)
    ensures
        match single_symbol(b) {
            Some(t) => res is Some && res.unwrap()@ == t,
            None => res is None,
        },
{
    if b == 0x7b {
        Some(Token::TkLbrace)
    } else if b == 0x7d {
        Some(Token::TkRbrace)
    } else if b == 0x28 {
        Some(Token::TkLparen)
    } else if b == 0x29 {
        Some(Token::TkRparen)
    } else if b == 0x5b {
        Some(Token::TkLbracket)
    } else if b == 0x5d {
        Some(Token::TkRbracket)
    } else if b == 0x2c {
        Some(Token::TkComma)
    } else if b == 0x3b {
        Some(Token::TkSemi)
    } else if b == 0x3f {
        Some(Token::TkQuestion)
    } else if b == 0x3a {
        Some(Token::TkColon)
    } else if b == 0x2e {
        Some(Token::TkDot)
    } else if b == 0x2b {
        Some(Token::TkPlus)
    } else if b == 0x2d {
        Some(Token::TkMinus)
    } else if b == 0x2a {
        Some(Token::TkTimes)
    } else if b == 0x2f {
        Some(Token::TkDivide)
    } else if b == 0x25 {
        Some(Token::TkMod)
    } else {
        None
    }
}

/// The two tokens of a symbol that an `=` may follow: alone, and with the `=`.
fn optional_eq_tokens(b: u8) -> (res: Option<(Token, Token)>)
    ensures
        match optional_eq_symbol(b) {
            Some(p) => res is Some && res.unwrap().0@ == p.0 && res.unwrap().1@ == p.1,
            None => res is None,
        },
{
    if b == 0x3d {
        Some((Token::TkAssign, Token::TkEq))
    } else if b == 0x3c {
        Some((Token::TkLt, Token::TkLe))
    } else if b == 0x3e {
        Some((Token::TkGt, Token::TkGe))
    } else if b == 0x21 {
        Some((Token::TkNot, Token::TkNe))
    } else {
        None
    }
}

/// Reads a punctuation or operator symbol.
fn tokenize_symbol(itr: &mut ByteStream) -> (res: JsishResult<Token>)
    requires
        old(itr)@.len() > 0,
    ensures
        lexed_as(res, final(itr)@, lex_symbol(old(itr)@)),
{
    let c = lookahead(itr)?;
    if let Some(tk) = single_symbol_token(c) {
        itr.next();
        return Ok(tk);
    }
    if c == 0x26 || c == 0x7c {
        itr.next();
        if lookahead(itr)? == c {
            itr.next();
            return Ok(
                if c == 0x26 {
                    Token::TkAnd
                } else {
                    Token::TkOr
                },
            );
        }
        return Err(JsishError::UnknownToken);
    }
    if let Some((wo_eq, w_eq)) = optional_eq_tokens(c) {
        itr.next();
        if itr.peek() == Some(0x3d) {
            itr.next();
            return Ok(w_eq);
        } else {
            return Ok(wo_eq);
        }
    }
    Err(JsishError::UnknownToken)
}

/// The token of a word: its keyword if it is one, else an identifier.
pub fn recognize_keywords(tk_str: &str) -> (res: Token)
    ensures
        res@ == keyword_or_identifier(tk_str@),
{
    let b = tk_str.as_bytes();
    proof {
        if b@ == "else".spec_bytes() {
            lemma_encode_utf8_injective(tk_str@, "else"@);
        }
        if b@ == "false".spec_bytes() {
            lemma_encode_utf8_injective(tk_str@, "false"@);
        }
        if b@ == "function".spec_bytes() {
            lemma_encode_utf8_injective(tk_str@, "function"@);
        }
        if b@ == "if".spec_bytes() {
            lemma_encode_utf8_injective(tk_str@, "if"@);
        }
        if b@ == "new".spec_bytes() {
            lemma_encode_utf8_injective(tk_str@, "new"@);
        }
        if b@ == "print".spec_bytes() {
            lemma_encode_utf8_injective(tk_str@, "print"@);
        }
        if b@ == "return".spec_bytes() {
            lemma_encode_utf8_injective(tk_str@, "return"@);
        }
        if b@ == "this".spec_bytes() {
            lemma_encode_utf8_injective(tk_str@, "this"@);
        }
        if b@ == "true".spec_bytes() {
            lemma_encode_utf8_injective(tk_str@, "true"@);
        }
        if b@ == "typeof".spec_bytes() {
            lemma_encode_utf8_injective(tk_str@, "typeof"@);
        }
        if b@ == "undefined".spec_bytes() {
            lemma_encode_utf8_injective(tk_str@, "undefined"@);
        }
        if b@ == "var".spec_bytes() {
            lemma_encode_utf8_injective(tk_str@, "var"@);
        }
        if b@ == "while".spec_bytes() {
            lemma_encode_utf8_injective(tk_str@, "while"@);
        }
        if b@ == "gc".spec_bytes() {
            lemma_encode_utf8_injective(tk_str@, "gc"@);
        }
        if b@ == "inUse".spec_bytes() {
            lemma_encode_utf8_injective(tk_str@, "inUse"@);
        }
    }
    if bytes_eq(b, "else".as_bytes()) {
        Token::TkElse
    } else if bytes_eq(b, "false".as_bytes()) {
        Token::TkFalse
    } else if bytes_eq(b, "function".as_bytes()) {
        Token::TkFunction
    } else if bytes_eq(b, "if".as_bytes()) {
        Token::TkIf
    } else if bytes_eq(b, "new".as_bytes()) {
        Token::TkNew
    } else if bytes_eq(b, "print".as_bytes()) {
        Token::TkPrint
    } else if bytes_eq(b, "return".as_bytes()) {
        Token::TkReturn
    } else if bytes_eq(b, "this".as_bytes()) {
        Token::TkThis
    } else if bytes_eq(b, "true".as_bytes()) {
        Token::TkTrue
    } else if bytes_eq(b, "typeof".as_bytes()) {
        Token::TkTypeof
    } else if bytes_eq(b, "undefined".as_bytes()) {
        Token::TkUndefined
    } else if bytes_eq(b, "var".as_bytes()) {
        Token::TkVar
    } else if bytes_eq(b, "while".as_bytes()) {
        Token::TkWhile
    } else if bytes_eq(b, "gc".as_bytes()) {
        Token::TkGc
    } else if bytes_eq(b, "inUse".as_bytes()) {
        Token::TkInUse
    } else {
        Token::TkId(String::from_str(tk_str))
    }
}

/// Takes the longest run of bytes of `class` out of the stream.
fn take_run(itr: &mut ByteStream, class: CharClass) -> (run: Vec<u8>)
    ensures
        run@ == old(itr)@.take(run_length(old(itr)@, class) as int),
        final(itr)@ == old(itr)@.skip(run_length(old(itr)@, class) as int),
{
    let ghost start = itr@;
    let mut run: Vec<u8> = Vec::new();
    proof {
        lemma_run_length(start, class);
        assert(itr@ =~= start.skip(0));
        assert(run@ =~= start.take(0));
    }
    loop
        invariant
            run@.len() <= start.len(),
            run@ == start.take(run@.len() as int),
            itr@ == start.skip(run@.len() as int),
            run_length(start, class) == run@.len() + run_length(itr@, class),
        ensures
            run@ == start.take(run_length(start, class) as int),
            itr@ == start.skip(run_length(start, class) as int),
        decreases itr@.len(),
    {
        match itr.peek() {
            Some(b) => {
                if class.contains(b) {
                    let ghost before = itr@;
                    itr.next();
                    run.push(b);
                    proof {
                        assert(itr@ =~= start.skip(run@.len() as int));
                        assert(run@ =~= start.take(run@.len() as int));
                        assert(before.drop_first() == itr@);
                    }
                } else {
                    break ;
                }
            },
            None => {
                break ;
            },
        }
    }
    run
}

/// Reads the longest run of bytes of `class` as text.
fn build_token(itr: &mut ByteStream, class: CharClass) -> (res: JsishResult<String>)
    ensures
        final(itr)@ == old(itr)@.skip(run_length(old(itr)@, class) as int),
        ({
            let run = old(itr)@.take(run_length(old(itr)@, class) as int);
            if valid_utf8(run) {
                res is Ok && res.unwrap()@ == decode_utf8(run)
            } else {
                res is Err && res.unwrap_err()@ == JsishErrorView::InvalidEncoding
            }
        }),
{
    let run = take_run(itr, class);
    match string_from_utf8(run) {
        Some(s) => Ok(s),
        None => Err(JsishError::InvalidEncoding),
    }
}

/// Reads a keyword or an identifier.
fn tokenize_identifier(itr: &mut ByteStream) -> (res: JsishResult<Token>)
    ensures
        lexed_as(res, final(itr)@, lex_word(old(itr)@)),
{
    let id_token = build_token(itr, CharClass::Alphanumeric)?;
    Ok(recognize_keywords(id_token.as_str()))
}

/// Reads a number literal.
fn tokenize_digits(itr: &mut ByteStream) -> (res: JsishResult<Token>)
    ensures
        lexed_as(res, final(itr)@, lex_number(old(itr)@)),
{
    let ghost start = itr@;
    let digits = take_run(itr, CharClass::Digit);
    proof {
        lemma_run_length(start, CharClass::Digit);
        assert forall|i: int| 0 <= i < digits@.len() implies 0x30 <= #[trigger] digits@[i]
            <= 0x39 by {
            assert(CharClass::Digit.holds(start[i]));
        }
    }
    match parse_decimal(&digits) {
        Some(n) => Ok(Token::TkNum(n)),
        None => Err(JsishError::InvalidInteger),
    }
}

/// Reads an escape sequence, from its backslash, and gives the byte that it
/// stands for.
fn parse_escape(itr: &mut ByteStream) -> (res: JsishResult<u8>)
    requires
        old(itr)@.len() > 0,
    ensures
        final(itr)@ == old(itr)@.skip(if old(itr)@.len() < 2 { 1int } else { 2int }),
        if old(itr)@.len() < 2 {
            res is Err && res.unwrap_err()@ == JsishErrorView::UnterminatedString
        } else {
            match unescape(old(itr)@[1]) {
                Some(b) => res == Ok::<u8, JsishError>(b),
                None => res is Err && res.unwrap_err()@ == JsishErrorView::InvalidEscapeSequence,
            }
        },
{
    itr.next();
    let next = itr.next();
    proof {
        if old(itr)@.len() < 2 {
            assert(itr@ =~= old(itr)@.skip(1));
        } else {
            assert(itr@ =~= old(itr)@.skip(2));
        }
    }
    match next {
        None => Err(JsishError::UnterminatedString),
        Some(c) => {
            if c == 0x5c {
                Ok(0x5c)
            } else if c == 0x22 {
                Ok(0x22)
            } else if c == 0x6e {
                Ok(0x0a)
            } else if c == 0x72 {
                Ok(0x0d)
            } else if c == 0x74 {
                Ok(0x09)
            } else if c == 0x62 {
                Ok(0x08)
            } else if c == 0x76 {
                Ok(0x0b)
            } else if c == 0x66 {
                Ok(0x0c)
            } else {
                Err(JsishError::InvalidEscapeSequence)
            }
        },
    }
}

/// Reads a string literal, from its opening quote.
fn tokenize_string(itr: &mut ByteStream) -> (res: JsishResult<Token>)
    requires
        old(itr)@.len() > 0,
    ensures
        lexed_as(res, final(itr)@, lex_string(old(itr)@)),
{
    let mut token_vec: Vec<u8> = Vec::new();
    itr.next();
    let ghost start = itr@;
    proof {
        if let Ok(bytes) = string_body(start).0 {
            assert(Seq::<u8>::empty() + bytes =~= bytes);
        }
    }
    loop
        invariant_except_break
            with_front(token_vec@, string_body(itr@)) == string_body(start),
        invariant
            old(itr)@.len() > 0,
            start == old(itr)@.drop_first(),
        ensures
            string_body(start) == (Ok::<Seq<u8>, JsishErrorView>(token_vec@), itr@),
        decreases itr@.len(),
    {
        let ghost before = itr@;
        let ghost front = token_vec@;
        match itr.peek() {
            Some(c) => {
                if c == 0x5c {
                    let b = match parse_escape(itr) {
                        Ok(b) => b,
                        Err(e) => {
                            return Err(e);
                        },
                    };
                    token_vec.push(b);
                    proof {
                        let tail = string_body(itr@);
                        if tail.0 is Ok {
                            assert(token_vec@ + tail.0->Ok_0 =~= front + (seq![b]
                                + tail.0->Ok_0));
                        }
                    }
                } else if c == 0x22 {
                    itr.next();
                    proof {
                        assert(front + Seq::<u8>::empty() =~= front);
                    }
                    break ;
                } else {
                    itr.next();
                    token_vec.push(c);
                    proof {
                        let tail = string_body(itr@);
                        if tail.0 is Ok {
                            assert(token_vec@ + tail.0->Ok_0 =~= front + (seq![c]
                                + tail.0->Ok_0));
                        }
                    }
                }
            },
            None => {
                return Err(JsishError::UnterminatedString);
            },
        }
    }
    match string_from_utf8(token_vec) {
        Some(s) => Ok(Token::TkString(s)),
        None => Err(JsishError::InvalidEncoding),
    }
}

/// Reads one token from a stream that starts with its first character.
fn diversify_tokens(itr: &mut ByteStream) -> (res: JsishResult<Token>)
    requires
        old(itr)@.len() > 0,
    ensures
        lexed_as(res, final(itr)@, lex_token(old(itr)@)),
{
    let next_char = lookahead(itr)?;
    if is_alphabetic(next_char) {
        tokenize_identifier(itr)
    } else if is_digit(next_char) {
        tokenize_digits(itr)
    } else if next_char == 0x22 {
        tokenize_string(itr)
    } else {
        tokenize_symbol(itr)
    }
}

/// Reads one token, or `TkEof` at the end of the input.
fn recognize_first_token(itr: &mut ByteStream) -> (res: JsishResult<Token>)
    ensures
        lexed_as(
            res,
            final(itr)@,
            if old(itr)@.len() == 0 {
                (Ok(TokenView::Eof), old(itr)@)
            } else {
                lex_token(old(itr)@)
            },
        ),
{
    match itr.peek() {
        Some(_) => diversify_tokens(itr),
        None => Ok(Token::TkEof),
    }
}

/// Takes the white space at the front of the stream out of it.
fn clear_whitespace(itr: &mut ByteStream)
    ensures
        final(itr)@ == skip_whitespace(old(itr)@),
{
    loop
        invariant
            skip_whitespace(itr@) == skip_whitespace(old(itr)@),
        ensures
            itr@ == skip_whitespace(old(itr)@),
        decreases itr@.len(),
    {
        match itr.peek() {
            Some(c) => {
                if is_whitespace(c) {
                    itr.next();
                } else {
                    break ;
                }
            },
            None => {
                break ;
            },
        }
    }
}

/// Reads the next token from the stream and leaves the stream positioned
/// immediately behind it.
///
/// The result and the input that is left are exactly what [`lex`] gives for
/// the input that was there: white space is skipped, the end of the input
/// gives `TkEof` again and again, and each lexical error comes on the inputs
/// that `lex` names.
pub fn next_token(itr: &mut ByteStream) -> (res: JsishResult<Token>)
    ensures
        lexed_as(res, final(itr)@, lex(old(itr)@)),
{
    proof {
        reveal(lex);
    }
    clear_whitespace(itr);
    recognize_first_token(itr)
}

} // verus!
