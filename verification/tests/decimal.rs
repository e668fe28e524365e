use jsish::decimal::{parse_decimal, push_decimal, push_decimal_digits};
use jsish::text::{bytes_eq, string_of_valid_utf8};

fn decimal_text(n: i64) -> String {
    let mut buf = Vec::new();
    push_decimal(n, &mut buf);
    String::from_utf8(buf).expect("digits")
}

#[test]
fn decimal_text_of_integers() {
    for n in [0, 1, 9, 10, 11, 99, 100, 12345, -1, -10, -999, i64::MAX, i64::MIN, i64::MIN + 1] {
        assert_eq!(decimal_text(n), n.to_string());
    }
}

#[test]
fn decimal_digits_are_appended() {
    let mut buf = b"x=".to_vec();
    push_decimal_digits(u64::MAX, &mut buf);
    assert_eq!(buf, b"x=18446744073709551615".to_vec());
    push_decimal_digits(0, &mut buf);
    assert_eq!(buf, b"x=184467440737095516150".to_vec());
}

#[test]
fn digits_are_read_as_a_number() {
    assert_eq!(parse_decimal(&b"0".to_vec()), Some(0));
    assert_eq!(parse_decimal(&b"000".to_vec()), Some(0));
    assert_eq!(parse_decimal(&b"0123".to_vec()), Some(123));
    assert_eq!(parse_decimal(&b"9223372036854775807".to_vec()), Some(i64::MAX));
    assert_eq!(parse_decimal(&b"09223372036854775807".to_vec()), Some(i64::MAX));
    assert_eq!(parse_decimal(&b"9223372036854775808".to_vec()), None);
    assert_eq!(parse_decimal(&b"92233720368547758070".to_vec()), None);
    assert_eq!(parse_decimal(&Vec::new()), Some(0));
}

#[test]
fn reading_the_text_of_a_number_gives_the_number() {
    for n in [0, 7, 10, 4096, 1_000_000_007, i64::MAX] {
        assert_eq!(parse_decimal(&decimal_text(n).into_bytes()), Some(n));
    }
}

#[test]
fn byte_strings_compare_byte_by_byte() {
    assert!(bytes_eq(b"", b""));
    assert!(bytes_eq(b"abc", b"abc"));
    assert!(!bytes_eq(b"abc", b"abd"));
    assert!(!bytes_eq(b"abc", b"ab"));
    assert!(!bytes_eq(b"", b"a"));
}

#[test]
fn valid_utf8_is_read_as_text() {
    assert_eq!(string_of_valid_utf8(Vec::new()), "");
    assert_eq!(string_of_valid_utf8(b"abc".to_vec()), "abc");
    assert_eq!(
        string_of_valid_utf8("h\u{e9} \u{4e16}".as_bytes().to_vec()),
        "h\u{e9} \u{4e16}"
    );
}
