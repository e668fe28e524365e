//! Decimal notation for integers: the text of a number and the number of a text.
use vstd::prelude::*;

verus! {

/// The byte of the decimal digit `d`.
pub open spec fn digit_byte(d: int) -> u8
    recommends
        0 <= d < 10,
{
    (0x30 + d) as u8
}

/// The decimal digits of a natural number, most significant first, without
/// leading zeros.
pub open spec fn decimal_digits(n: nat) -> Seq<u8>
    decreases n,
{
    if n < 10 {
        seq![digit_byte(n as int)]
    } else {
        decimal_digits(n / 10).push(digit_byte((n % 10) as int))
    }
}

/// The decimal text of an integer: a minus sign for a negative one, then the
/// digits of its magnitude.
pub open spec fn decimal(n: int) -> Seq<u8> {
    if n < 0 {
        seq![0x2du8] + decimal_digits((-n) as nat)
    } else {
        decimal_digits(n as nat)
    }
}

/// Whether every byte of `s` is a decimal digit.
pub open spec fn all_digits(s: Seq<u8>) -> bool {
    forall|i: int| 0 <= i < s.len() ==> 0x30 <= #[trigger] s[i] <= 0x39
}

/// The number that a sequence of decimal digits denotes; leading zeros count
/// for nothing and the empty sequence denotes zero.
pub open spec fn decimal_value(s: Seq<u8>) -> nat
    decreases s.len(),
{
    if s.len() == 0 {
        0
    } else {
        (decimal_value(s.drop_last()) * 10 + (s.last() - 0x30)) as nat
    }
}

/// The digits of a number are digits, and there is at least one.
pub proof fn lemma_decimal_digits_are_digits(n: nat)
    ensures
        decimal_digits(n).len() >= 1,
        all_digits(decimal_digits(n)),
    decreases n,
{
    if n >= 10 {
        lemma_decimal_digits_are_digits(n / 10);
    }
}

/// The decimal text of an integer is made of ASCII characters.
pub proof fn lemma_decimal_is_ascii(n: int)
    ensures
        forall|i: int| 0 <= i < decimal(n).len() ==> #[trigger] decimal(n)[i] < 0x80,
{
    if n < 0 {
        lemma_decimal_digits_are_digits((-n) as nat);
    } else {
        lemma_decimal_digits_are_digits(n as nat);
    }
}

/// Reading the digits of a number gives the number back.
pub proof fn lemma_decimal_value_of_digits(n: nat)
    ensures
        decimal_value(decimal_digits(n)) == n,
    decreases n,
{
    if n < 10 {
        let s = decimal_digits(n);
        assert(s.drop_last() =~= Seq::<u8>::empty());
        assert(decimal_value(s.drop_last()) == 0);
    } else {
        lemma_decimal_value_of_digits(n / 10);
        let s = decimal_digits(n);
        assert(s.drop_last() =~= decimal_digits(n / 10));
    }
}

/// A longer digit sequence denotes no less than any of its prefixes.
pub proof fn lemma_decimal_value_prefix(s: Seq<u8>, k: int)
    requires
        all_digits(s),
        0 <= k <= s.len(),
    ensures
        decimal_value(s.take(k)) <= decimal_value(s),
    decreases s.len() - k,
{
    if k == s.len() {
        assert(s.take(k) =~= s);
    } else {
        lemma_decimal_value_prefix(s, k + 1);
        let t = s.take(k + 1);
        assert(t.drop_last() =~= s.take(k));
        assert(t.last() == s[k]);
    }
}

/// Reads a sequence of decimal digits as a 64-bit signed integer. Returns
/// `None` exactly when the number that the digits denote does not fit.
pub fn parse_decimal(digits: &Vec<u8>) -> (res: Option<i64>)
    requires
        all_digits(digits@),
    ensures
        res is Some <==> decimal_value(digits@) <= i64::MAX,
        res is Some ==> res.unwrap() == decimal_value(digits@),
{
    let mut acc: i64 = 0;
    let mut i: usize = 0;
    while i < digits.len()
        invariant
            0 <= i <= digits.len(),
            all_digits(digits@),
            0 <= acc,
            acc == decimal_value(digits@.take(i as int)),
        decreases digits.len() - i,
    {
        let d: i64 = (digits[i] - 0x30) as i64;
        proof {
            let t = digits@.take(i + 1);
            assert(t.drop_last() =~= digits@.take(i as int));
            assert(t.last() == digits@[i as int]);
            lemma_decimal_value_prefix(digits@, i + 1);
        }
        let scaled = match acc.checked_mul(10) {
            Some(v) => v,
            None => {
                return None;
            },
        };
        acc = match scaled.checked_add(d) {
            Some(v) => v,
            None => {
                return None;
            },
        };
        i = i + 1;
    }
    proof {
        assert(digits@.take(i as int) =~= digits@);
    }
    Some(acc)
}

/// Appends the decimal digits of `n` to `buf`.
pub fn push_decimal_digits(n: u64, buf: &mut Vec<u8>)
    ensures
        final(buf)@ == old(buf)@ + decimal_digits(n as nat),
    decreases n,
{
    if n >= 10 {
        push_decimal_digits(n / 10, buf);
    }
    let d: u8 = (n % 10) as u8;
    buf.push(0x30 + d);
    proof {
        if n >= 10 {
            assert(final(buf)@ =~= old(buf)@ + decimal_digits(n as nat));
        } else {
            assert(final(buf)@ =~= old(buf)@ + decimal_digits(n as nat));
        }
    }
}

/// Appends the decimal text of `n` to `buf`.
pub fn push_decimal(n: i64, buf: &mut Vec<u8>)
    ensures
        final(buf)@ == old(buf)@ + decimal(n as int),
{
    if n < 0 {
        buf.push(0x2d);
        // The magnitude of the least 64-bit integer does not fit in an `i64`.
        let magnitude: u64 = if n == i64::MIN {
            0x8000_0000_0000_0000u64
        } else {
            (-n) as u64
        };
        push_decimal_digits(magnitude, buf);
        proof {
            assert(final(buf)@ =~= old(buf)@ + decimal(n as int));
        }
    } else {
        push_decimal_digits(n as u64, buf);
    }
}

} // verus!
