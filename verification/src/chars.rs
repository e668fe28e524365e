//! The character classes of the lexical grammar.
//!
//! The tokenizer reads its input byte by byte and classifies each byte as the
//! Unicode character with the same number (the Latin-1 reading of a byte).
//! The classes below are the Unicode properties `Alphabetic`, `Numeric` and
//! `White_Space` on that range, written out as intervals.
use vstd::prelude::*;

verus! {

/// The decimal digits `0` to `9`.
pub open spec fn is_digit_spec(b: u8) -> bool {
    0x30 <= b <= 0x39
}

/// The letters: `A`-`Z`, `a`-`z`, and the letters of the upper half of Latin-1.
pub open spec fn is_alphabetic_spec(b: u8) -> bool {
    ||| 0x41 <= b <= 0x5a
    ||| 0x61 <= b <= 0x7a
    ||| b == 0xaa
    ||| b == 0xb5
    ||| b == 0xba
    ||| 0xc0 <= b <= 0xd6
    ||| 0xd8 <= b <= 0xf6
    ||| 0xf8 <= b
}

/// The numeric characters: the decimal digits, the superscripts one to three
/// and the vulgar fractions of Latin-1.
pub open spec fn is_numeric_spec(b: u8) -> bool {
    ||| is_digit_spec(b)
    ||| b == 0xb2
    ||| b == 0xb3
    ||| b == 0xb9
    ||| 0xbc <= b <= 0xbe
}

/// Letters and numeric characters: what may continue an identifier.
pub open spec fn is_alphanumeric_spec(b: u8) -> bool {
    is_alphabetic_spec(b) || is_numeric_spec(b)
}

/// White space: tab to carriage return, space, next-line and no-break space.
pub open spec fn is_whitespace_spec(b: u8) -> bool {
    ||| 0x09 <= b <= 0x0d
    ||| b == 0x20
    ||| b == 0x85
    ||| b == 0xa0
}

/// Whether `b` is a decimal digit.
#[verifier::when_used_as_spec(is_digit_spec)]
pub fn is_digit(b: u8) -> (r: bool)
    ensures
        r == is_digit_spec(b),
{
    0x30 <= b && b <= 0x39
}

/// Whether `b` is a letter.
#[verifier::when_used_as_spec(is_alphabetic_spec)]
pub fn is_alphabetic(b: u8) -> (r: bool)
    ensures
        r == is_alphabetic_spec(b),
{
    (0x41 <= b && b <= 0x5a) || (0x61 <= b && b <= 0x7a) || b == 0xaa || b == 0xb5 || b == 0xba
        || (0xc0 <= b && b <= 0xd6) || (0xd8 <= b && b <= 0xf6) || 0xf8 <= b
}

/// Whether `b` is a numeric character.
#[verifier::when_used_as_spec(is_numeric_spec)]
pub fn is_numeric(b: u8) -> (r: bool)
    ensures
        r == is_numeric_spec(b),
{
    is_digit(b) || b == 0xb2 || b == 0xb3 || b == 0xb9 || (0xbc <= b && b <= 0xbe)
}

/// Whether `b` is a letter or a numeric character.
#[verifier::when_used_as_spec(is_alphanumeric_spec)]
pub fn is_alphanumeric(b: u8) -> (r: bool)
    ensures
        r == is_alphanumeric_spec(b),
{
    is_alphabetic(b) || is_numeric(b)
}

/// Whether `b` is white space.
#[verifier::when_used_as_spec(is_whitespace_spec)]
pub fn is_whitespace(b: u8) -> (r: bool)
    ensures
        r == is_whitespace_spec(b),
{
    (0x09 <= b && b <= 0x0d) || b == 0x20 || b == 0x85 || b == 0xa0
}

} // verus!
