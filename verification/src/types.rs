//! The input stream and the errors of every stage.
use vstd::prelude::*;
use vstd::string::*;
use crate::ast::{binary_symbol, unary_symbol, BinaryOperator, UnaryOperator};
use crate::tokenizer::{token_text, Token, TokenView};

verus! {

/// A byte-oriented input stream with one byte of lookahead.
///
/// Its view is the input that has not been consumed yet.
pub struct ByteStream {
    bytes: Vec<u8>,
    pos: usize,
}

/// The first byte of `s`, if there is one.
pub open spec fn first_byte(s: Seq<u8>) -> Option<u8> {
    if s.len() > 0 {
        Some(s[0])
    } else {
        None
    }
}

/// What is left of `s` after its first byte; nothing is taken from an empty input.
pub open spec fn after_first_byte(s: Seq<u8>) -> Seq<u8> {
    if s.len() > 0 {
        s.drop_first()
    } else {
        s
    }
}

impl View for ByteStream {
    type V = Seq<u8>;

    closed spec fn view(&self) -> Seq<u8> {
        self.bytes@.skip(self.pos as int)
    }
}

impl ByteStream {
    /// The position lies within the input.
    #[verifier::type_invariant]
    spec fn well_formed(&self) -> bool {
        self.pos <= self.bytes.len()
    }

    /// A stream positioned at the start of `bytes`.
    pub fn new(bytes: Vec<u8>) -> (s: ByteStream)
        ensures
            s@ == bytes@,
    {
        let s = ByteStream { bytes, pos: 0 };
        proof {
            assert(s@ =~= bytes@);
        }
        s
    }

    /// The next byte, which stays in the stream.
    pub fn peek(&self) -> (r: Option<u8>)
        ensures
            r == first_byte(self@),
    {
        proof {
            use_type_invariant(self);
        }
        if self.pos < self.bytes.len() {
            Some(self.bytes[self.pos])
        } else {
            None
        }
    }

    /// Takes the next byte out of the stream.
    pub fn next(&mut self) -> (r: Option<u8>)
        ensures
            r == first_byte(old(self)@),
            final(self)@ == after_first_byte(old(self)@),
    {
        proof {
            use_type_invariant(&*self);
        }
        if self.pos < self.bytes.len() {
            let b = self.bytes[self.pos];
            self.pos = self.pos + 1;
            proof {
                assert(self@ =~= old(self)@.drop_first());
            }
            Some(b)
        } else {
            None
        }
    }
}

/// What the parser was looking for when it met a token that does not fit.
#[derive(Clone, Debug, PartialEq)]
pub enum Expected {
    /// One particular token.
    Token(Token),
    /// Any identifier.
    Identifier,
    /// A literal, an identifier or a parenthesized expression.
    Value,
}

/// An [`Expected`] as a mathematical value.
pub enum ExpectedView {
    Token(TokenView),
    Identifier,
    Value,
}

impl View for Expected {
    type V = ExpectedView;

    open spec fn view(&self) -> ExpectedView {
        match self {
            Expected::Token(t) => ExpectedView::Token(t@),
            Expected::Identifier => ExpectedView::Identifier,
            Expected::Value => ExpectedView::Value,
        }
    }
}

/// The four kinds of runtime value.
#[derive(Clone, Copy, Debug, PartialEq, Eq, Structural)]
pub enum ValueKind {
    Number,
    Text,
    Boolean,
    Undefined,
}

/// The constructs that take a boolean guard.
#[derive(Clone, Copy, Debug, PartialEq, Eq, Structural)]
pub enum Guarded {
    Conditional,
    If,
    While,
}

/// An operator or a guard met operands of the wrong kind.
#[derive(Clone, Copy, Debug, PartialEq, Eq, Structural)]
pub enum TypeMismatch {
    /// A prefix operator and the kind of its operand.
    Unary { opr: UnaryOperator, found: ValueKind },
    /// A binary operator and the kinds of both operands.
    Binary { opr: BinaryOperator, lft: ValueKind, rht: ValueKind },
    /// A logical operator whose left operand is not a boolean.
    LeftOperand { opr: BinaryOperator, found: ValueKind },
    /// A guard that is not a boolean.
    Guard { construct: Guarded, found: ValueKind },
}

/// Every error that tokenizing, parsing or running a program can end in.
#[derive(Clone, Debug, PartialEq)]
pub enum JsishError {
    /// The input ended in the middle of a token.
    UnexpectedEof,
    /// A character that starts no token.
    UnknownToken,
    /// A backslash in a string literal followed by a character that is no escape.
    InvalidEscapeSequence,
    /// The input ended inside a string literal.
    UnterminatedString,
    /// The bytes of an identifier or of a string literal are not valid UTF-8.
    InvalidEncoding,
    /// A number literal that does not fit in 64 bits.
    InvalidInteger,
    /// The grammar asked for one thing and the input held another.
    SyntaxError { expected: Expected, found: Token },
    /// A token that starts no statement where a statement must stand.
    ExpectedStatement,
    /// `=` after an expression that is not a bare identifier.
    InvalidAssignmentTarget,
    /// An operand or a guard of the wrong kind.
    TypeError(TypeMismatch),
    /// A variable was read before anything was assigned to it.
    UndefinedVariable { name: String },
    /// An assignment node whose target is not an identifier.
    NonIdentifierTarget,
    /// Division or remainder by zero. Fatal: a run must not go on after it.
    DivisionByZero,
    /// An arithmetic result that does not fit in 64 bits. Fatal as well.
    ArithmeticOverflow,
    /// A loop went through more iterations than the run allows.
    IterationLimit,
    /// Both output modes were asked for at once.
    ConflictingModes,
}

/// A [`JsishError`] as a mathematical value.
pub enum JsishErrorView {
    UnexpectedEof,
    UnknownToken,
    InvalidEscapeSequence,
    UnterminatedString,
    InvalidEncoding,
    InvalidInteger,
    SyntaxError { expected: ExpectedView, found: TokenView },
    ExpectedStatement,
    InvalidAssignmentTarget,
    TypeError(TypeMismatch),
    UndefinedVariable { name: Seq<char> },
    NonIdentifierTarget,
    DivisionByZero,
    ArithmeticOverflow,
    IterationLimit,
    ConflictingModes,
}

impl View for JsishError {
    type V = JsishErrorView;

    open spec fn view(&self) -> JsishErrorView {
        match self {
            JsishError::UnexpectedEof => JsishErrorView::UnexpectedEof,
            JsishError::UnknownToken => JsishErrorView::UnknownToken,
            JsishError::InvalidEscapeSequence => JsishErrorView::InvalidEscapeSequence,
            JsishError::UnterminatedString => JsishErrorView::UnterminatedString,
            JsishError::InvalidEncoding => JsishErrorView::InvalidEncoding,
            JsishError::InvalidInteger => JsishErrorView::InvalidInteger,
            JsishError::SyntaxError { expected, found } => JsishErrorView::SyntaxError {
                expected: expected@,
                found: found@,
            },
            JsishError::ExpectedStatement => JsishErrorView::ExpectedStatement,
            JsishError::InvalidAssignmentTarget => JsishErrorView::InvalidAssignmentTarget,
            JsishError::TypeError(m) => JsishErrorView::TypeError(*m),
            JsishError::UndefinedVariable { name } => JsishErrorView::UndefinedVariable {
                name: name@,
            },
            JsishError::NonIdentifierTarget => JsishErrorView::NonIdentifierTarget,
            JsishError::DivisionByZero => JsishErrorView::DivisionByZero,
            JsishError::ArithmeticOverflow => JsishErrorView::ArithmeticOverflow,
            JsishError::IterationLimit => JsishErrorView::IterationLimit,
            JsishError::ConflictingModes => JsishErrorView::ConflictingModes,
        }
    }
}

/// The result of every stage.
pub type JsishResult<T> = Result<T, JsishError>;

/// The name of a kind of value, as `typeof` gives it.
pub open spec fn kind_name(k: ValueKind) -> Seq<char> {
    match k {
        ValueKind::Number => "number"@,
        ValueKind::Text => "string"@,
        ValueKind::Boolean => "boolean"@,
        ValueKind::Undefined => "undefined"@,
    }
}

/// The text for what the parser was looking for.
pub open spec fn expected_text(e: ExpectedView) -> Seq<char> {
    match e {
        ExpectedView::Token(t) => token_text(t),
        ExpectedView::Identifier => "identifier"@,
        ExpectedView::Value => "value"@,
    }
}

/// The kinds of operand that a prefix operator takes.
pub open spec fn unary_operand_shape(opr: UnaryOperator) -> Seq<char> {
    match opr {
        UnaryOperator::UopNot => "boolean"@,
        UnaryOperator::UopMinus => "number"@,
        UnaryOperator::UopTypeof => "any value"@,
    }
}

/// The kinds of operands that a binary operator takes.
pub open spec fn binary_operand_shape(opr: BinaryOperator) -> Seq<char> {
    match opr {
        BinaryOperator::BopPlus => "number * number or string * string"@,
        BinaryOperator::BopAnd => "boolean * boolean"@,
        BinaryOperator::BopOr => "boolean * boolean"@,
        BinaryOperator::BopEq => "any value * any value"@,
        BinaryOperator::BopNe => "any value * any value"@,
        BinaryOperator::BopComma => "any value * any value"@,
        _ => "number * number"@,
    }
}

/// The name of a guarded construct, as messages give it.
pub open spec fn guarded_name(g: Guarded) -> Seq<char> {
    match g {
        Guarded::Conditional => "'cond' expression"@,
        Guarded::If => "'if' statement"@,
        Guarded::While => "'while' statement"@,
    }
}

/// The message of a type mismatch.
pub open spec fn mismatch_text(m: TypeMismatch) -> Seq<char> {
    match m {
        TypeMismatch::Unary { opr, found } => "unary operator '"@ + unary_symbol(opr)
            + "' requires "@ + unary_operand_shape(opr) + ", found "@ + kind_name(found),
        TypeMismatch::Binary { opr, lft, rht } => "operator '"@ + binary_symbol(opr)
            + "' requires "@ + binary_operand_shape(opr) + ", found "@ + kind_name(lft) + " * "@
            + kind_name(rht),
        TypeMismatch::LeftOperand { opr, found } => "operator '"@ + binary_symbol(opr)
            + "' requires boolean, found "@ + kind_name(found),
        TypeMismatch::Guard { construct, found } => "boolean guard required for "@
            + guarded_name(construct) + ", found "@ + kind_name(found),
    }
}

/// The human-readable message of an error.
pub open spec fn message_text(e: JsishErrorView) -> Seq<char> {
    match e {
        JsishErrorView::UnexpectedEof => "Unexpected EOF"@,
        JsishErrorView::UnknownToken => "Unknown token type"@,
        JsishErrorView::InvalidEscapeSequence => "Invalid Escape Sequence"@,
        JsishErrorView::UnterminatedString => "Invalid String"@,
        JsishErrorView::InvalidEncoding => "Invalid UTF-8 data"@,
        JsishErrorView::InvalidInteger => "Invalid integer"@,
        JsishErrorView::SyntaxError { expected, found } => "expected '"@ + expected_text(expected)
            + "', found '"@ + token_text(found) + "'"@,
        JsishErrorView::ExpectedStatement => "Expected statement"@,
        JsishErrorView::InvalidAssignmentTarget => "unexpected token '='"@,
        JsishErrorView::TypeError(m) => mismatch_text(m),
        JsishErrorView::UndefinedVariable { name } => "variable '"@ + name + "' not found"@,
        JsishErrorView::NonIdentifierTarget => "unexpected target of assignment\n"@,
        JsishErrorView::DivisionByZero => "Cannot divide by zero"@,
        JsishErrorView::ArithmeticOverflow => "Arithmetic overflow"@,
        JsishErrorView::IterationLimit => "Iteration limit reached"@,
        JsishErrorView::ConflictingModes => "Only specify one mode"@,
    }
}

impl ValueKind {
    /// The name of this kind, as `typeof` gives it.
    pub fn name(&self) -> (res: &'static str)
        ensures
            res@ == kind_name(*self),
    {
        match self {
            ValueKind::Number => "number",
            ValueKind::Text => "string",
            ValueKind::Boolean => "boolean",
            ValueKind::Undefined => "undefined",
        }
    }
}

impl Expected {
    /// The text for what the parser was looking for.
    pub fn to_text(&self) -> (res: String)
        ensures
            res@ == expected_text(self@),
    {
        match self {
            Expected::Token(t) => t.to_text(),
            Expected::Identifier => String::from_str("identifier"),
            Expected::Value => String::from_str("value"),
        }
    }
}

impl TypeMismatch {
    /// The message of this mismatch.
    pub fn message(&self) -> (res: String)
        ensures
            res@ == mismatch_text(*self),
    {
        match self {
            TypeMismatch::Unary { opr, found } => {
                let shape = match opr {
                    UnaryOperator::UopNot => "boolean",
                    UnaryOperator::UopMinus => "number",
                    UnaryOperator::UopTypeof => "any value",
                };
                let mut s = String::from_str("unary operator '");
                s.append(opr.symbol());
                s.append("' requires ");
                s.append(shape);
                s.append(", found ");
                s.append(found.name());
                s
            },
            TypeMismatch::Binary { opr, lft, rht } => {
                let shape = match opr {
                    BinaryOperator::BopPlus => "number * number or string * string",
                    BinaryOperator::BopAnd => "boolean * boolean",
                    BinaryOperator::BopOr => "boolean * boolean",
                    BinaryOperator::BopEq => "any value * any value",
                    BinaryOperator::BopNe => "any value * any value",
                    BinaryOperator::BopComma => "any value * any value",
                    _ => "number * number",
                };
                let mut s = String::from_str("operator '");
                s.append(opr.symbol());
                s.append("' requires ");
                s.append(shape);
                s.append(", found ");
                s.append(lft.name());
                s.append(" * ");
                s.append(rht.name());
                s
            },
            TypeMismatch::LeftOperand { opr, found } => {
                let mut s = String::from_str("operator '");
                s.append(opr.symbol());
                s.append("' requires boolean, found ");
                s.append(found.name());
                s
            },
            TypeMismatch::Guard { construct, found } => {
                let name = match construct {
                    Guarded::Conditional => "'cond' expression",
                    Guarded::If => "'if' statement",
                    Guarded::While => "'while' statement",
                };
                let mut s = String::from_str("boolean guard required for ");
                s.append(name);
                s.append(", found ");
                s.append(found.name());
                s
            },
        }
    }
}

impl JsishError {
    /// Whether the error is fatal: division by zero and overflow abort a run
    /// and are not meant to be handled.
    pub fn is_fatal(&self) -> (r: bool)
        ensures
            r == (self@ is DivisionByZero || self@ is ArithmeticOverflow),
    {
        match self {
            JsishError::DivisionByZero => true,
            JsishError::ArithmeticOverflow => true,
            _ => false,
        }
    }

    /// The human-readable message of this error.
    pub fn message(&self) -> (res: String)
        ensures
            res@ == message_text(self@),
    {
        match self {
            JsishError::UnexpectedEof => String::from_str("Unexpected EOF"),
            JsishError::UnknownToken => String::from_str("Unknown token type"),
            JsishError::InvalidEscapeSequence => String::from_str("Invalid Escape Sequence"),
            JsishError::UnterminatedString => String::from_str("Invalid String"),
            JsishError::InvalidEncoding => String::from_str("Invalid UTF-8 data"),
            JsishError::InvalidInteger => String::from_str("Invalid integer"),
            JsishError::SyntaxError { expected, found } => {
                let mut s = String::from_str("expected '");
                let e = expected.to_text();
                s.append(e.as_str());
                s.append("', found '");
                let f = found.to_text();
                s.append(f.as_str());
                s.append("'");
                s
            },
            JsishError::ExpectedStatement => String::from_str("Expected statement"),
            JsishError::InvalidAssignmentTarget => String::from_str("unexpected token '='"),
            JsishError::TypeError(m) => m.message(),
            JsishError::UndefinedVariable { name } => {
                let mut s = String::from_str("variable '");
                s.append(name.as_str());
                s.append("' not found");
                s
            },
            JsishError::NonIdentifierTarget => String::from_str(
                "unexpected target of assignment\n",
            ),
            JsishError::DivisionByZero => String::from_str("Cannot divide by zero"),
            JsishError::ArithmeticOverflow => String::from_str("Arithmetic overflow"),
            JsishError::IterationLimit => String::from_str("Iteration limit reached"),
            JsishError::ConflictingModes => String::from_str("Only specify one mode"),
        }
    }
}

} // verus!
