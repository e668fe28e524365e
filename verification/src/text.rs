//! Byte strings and their reading as text.
use vstd::prelude::*;
use vstd::utf8::*;

verus! {

/// Whether every byte of `s` is an ASCII character.
pub open spec fn all_ascii(s: Seq<u8>) -> bool {
    forall|i: int| 0 <= i < s.len() ==> #[trigger] s[i] < 0x80
}

/// A sequence of ASCII characters is valid UTF-8.
pub proof fn lemma_ascii_is_valid_utf8(s: Seq<u8>)
    requires
        all_ascii(s),
    ensures
        valid_utf8(s),
    decreases s.len(),
{
    if s.len() > 0 {
        let b = s[0];
        assert(codepoint_width_1(b) < 0x80) by {
            assert(b < 0x80u8 ==> (b as u32) & 0x7f < 0x80u32) by (bit_vector);
        }
        assert(valid_first_scalar(s));
        let rest = pop_first_scalar(s);
        assert(rest =~= s.drop_first());
        assert forall|i: int| 0 <= i < rest.len() implies #[trigger] rest[i] < 0x80 by {
            assert(rest[i] == s[i + 1]);
        }
        lemma_ascii_is_valid_utf8(rest);
    }
}

/// Calls the standard library's `String::from_utf8`.
///
/// Trusted, not proved: the call succeeds exactly on valid UTF-8, and the
/// text that it gives is the one that the bytes encode.
#[verifier::external_body]
pub(crate) fn string_from_utf8(bytes: Vec<u8>) -> (res: Option<String>)
    ensures
        res is Some <==> valid_utf8(bytes@),
        res is Some ==> res.unwrap()@ == decode_utf8(bytes@),
{
    String::from_utf8(bytes).ok()
}

/// The text that a valid UTF-8 byte string encodes.
pub fn string_of_valid_utf8(bytes: Vec<u8>) -> (res: String)
    requires
        valid_utf8(bytes@),
    ensures
        res@ == decode_utf8(bytes@),
        encode_utf8(res@) == bytes@,
{
    proof {
        decode_utf8_encode_utf8(bytes@);
    }
    match string_from_utf8(bytes) {
        Some(s) => s,
        // Never taken: the bytes are valid.
        None => String::new(),
    }
}

/// Whether two byte strings hold the same bytes.
pub fn bytes_eq(a: &[u8], b: &[u8]) -> (r: bool)
    ensures
        r == (a@ == b@),
{
    if a.len() != b.len() {
        return false;
    }
    let mut i: usize = 0;
    while i < a.len()
        invariant
            a.len() == b.len(),
            0 <= i <= a.len(),
            forall|j: int| 0 <= j < i ==> a@[j] == b@[j],
        decreases a.len() - i,
    {
        if a[i] != b[i] {
            return false;
        }
        i = i + 1;
    }
    proof {
        assert(a@ =~= b@);
    }
    true
}

/// Two texts with the same UTF-8 encoding are the same text.
pub proof fn lemma_encode_utf8_injective(a: Seq<char>, b: Seq<char>)
    requires
        encode_utf8(a) == encode_utf8(b),
    ensures
        a == b,
{
    encode_utf8_decode_utf8(a);
    encode_utf8_decode_utf8(b);
}

} // verus!
