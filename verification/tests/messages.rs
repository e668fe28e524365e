use jsish::ast::{BinaryOperator, UnaryOperator};
use jsish::tokenizer::Token;
use jsish::types::{Expected, Guarded, JsishError, TypeMismatch, ValueKind};

#[test]
fn lexical_messages() {
    assert_eq!(JsishError::UnexpectedEof.message(), "Unexpected EOF");
    assert_eq!(JsishError::UnknownToken.message(), "Unknown token type");
    assert_eq!(JsishError::InvalidEscapeSequence.message(), "Invalid Escape Sequence");
    assert_eq!(JsishError::UnterminatedString.message(), "Invalid String");
    assert_eq!(JsishError::InvalidEncoding.message(), "Invalid UTF-8 data");
    assert_eq!(JsishError::InvalidInteger.message(), "Invalid integer");
}

#[test]
fn syntax_messages() {
    assert_eq!(
        JsishError::SyntaxError {
            expected: Expected::Token(Token::TkSemi),
            found: Token::TkEof
        }
        .message(),
        "expected ';', found 'eof'"
    );
    assert_eq!(
        JsishError::SyntaxError {
            expected: Expected::Token(Token::TkEof),
            found: Token::TkRbrace
        }
        .message(),
        "expected 'eof', found '}'"
    );
    assert_eq!(
        JsishError::SyntaxError {
            expected: Expected::Identifier,
            found: Token::TkNum(12)
        }
        .message(),
        "expected 'identifier', found '12'"
    );
    assert_eq!(
        JsishError::SyntaxError {
            expected: Expected::Value,
            found: Token::TkString("a b".to_string())
        }
        .message(),
        "expected 'value', found 'a b'"
    );
    assert_eq!(
        JsishError::SyntaxError {
            expected: Expected::Token(Token::TkLbrace),
            found: Token::TkId("x".to_string())
        }
        .message(),
        "expected '{', found 'x'"
    );
    assert_eq!(JsishError::ExpectedStatement.message(), "Expected statement");
    assert_eq!(JsishError::InvalidAssignmentTarget.message(), "unexpected token '='");
}

#[test]
fn expected_text() {
    assert_eq!(Expected::Token(Token::TkWhile).to_text(), "while");
    assert_eq!(Expected::Identifier.to_text(), "identifier");
    assert_eq!(Expected::Value.to_text(), "value");
}

#[test]
fn type_error_messages() {
    assert_eq!(
        TypeMismatch::Unary { opr: UnaryOperator::UopNot, found: ValueKind::Number }.message(),
        "unary operator '!' requires boolean, found number"
    );
    assert_eq!(
        TypeMismatch::Unary { opr: UnaryOperator::UopMinus, found: ValueKind::Text }.message(),
        "unary operator '-' requires number, found string"
    );
    assert_eq!(
        TypeMismatch::Binary {
            opr: BinaryOperator::BopPlus,
            lft: ValueKind::Number,
            rht: ValueKind::Boolean
        }
        .message(),
        "operator '+' requires number * number or string * string, found number * boolean"
    );
    assert_eq!(
        TypeMismatch::Binary {
            opr: BinaryOperator::BopLe,
            lft: ValueKind::Text,
            rht: ValueKind::Undefined
        }
        .message(),
        "operator '<=' requires number * number, found string * undefined"
    );
    assert_eq!(
        TypeMismatch::Binary {
            opr: BinaryOperator::BopAnd,
            lft: ValueKind::Boolean,
            rht: ValueKind::Number
        }
        .message(),
        "operator '&&' requires boolean * boolean, found boolean * number"
    );
    assert_eq!(
        TypeMismatch::LeftOperand { opr: BinaryOperator::BopOr, found: ValueKind::Text }.message(),
        "operator '||' requires boolean, found string"
    );
    assert_eq!(
        TypeMismatch::Guard { construct: Guarded::Conditional, found: ValueKind::Number }
            .message(),
        "boolean guard required for 'cond' expression, found number"
    );
    assert_eq!(
        TypeMismatch::Guard { construct: Guarded::If, found: ValueKind::Undefined }.message(),
        "boolean guard required for 'if' statement, found undefined"
    );
    assert_eq!(
        TypeMismatch::Guard { construct: Guarded::While, found: ValueKind::Text }.message(),
        "boolean guard required for 'while' statement, found string"
    );
    let m = TypeMismatch::Guard { construct: Guarded::If, found: ValueKind::Number };
    assert_eq!(JsishError::TypeError(m).message(), m.message());
}

#[test]
fn runtime_messages() {
    assert_eq!(
        JsishError::UndefinedVariable { name: "abc".to_string() }.message(),
        "variable 'abc' not found"
    );
    assert_eq!(
        JsishError::NonIdentifierTarget.message(),
        "unexpected target of assignment\n"
    );
    assert_eq!(JsishError::DivisionByZero.message(), "Cannot divide by zero");
    assert_eq!(JsishError::ArithmeticOverflow.message(), "Arithmetic overflow");
    assert_eq!(JsishError::IterationLimit.message(), "Iteration limit reached");
    assert_eq!(JsishError::ConflictingModes.message(), "Only specify one mode");
}
