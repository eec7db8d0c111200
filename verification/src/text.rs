//! Turning received bytes into strings.
use vstd::prelude::*;
use vstd::utf8::{decode_utf8, encode_utf8, valid_utf8};

verus! {

/// The string holding `bytes` decoded as UTF-8 with `String::from_utf8_lossy`.
/// Claimed, as std documents: bytes that are valid UTF-8 decode to the
/// characters they encode.  What replaces invalid sequences is not stated.
#[verifier::external_body]
pub(crate) fn utf8_lossy(bytes: &[u8]) -> (s: String)
    ensures
        valid_utf8(bytes@) ==> s@ == decode_utf8(bytes@),
{
    String::from_utf8_lossy(bytes).to_string()
}

/// `n` NUL characters.
pub open spec fn nul_chars(n: nat) -> Seq<char> {
    Seq::new(n, |i: int| '\0')
}

/// A string of `n` NUL characters.
pub fn nul_string(n: usize) -> (s: String)
    ensures
        s@ == nul_chars(n as nat),
{
    let mut bytes: Vec<u8> = Vec::new();
    let mut i: usize = 0;
    while i < n
        invariant
            i <= n,
            bytes@ =~= Seq::new(i as nat, |k: int| 0u8),
        decreases n - i,
    {
        bytes.push(0);
        i = i + 1;
    }
    proof {
        let chars = nul_chars(n as nat);
        assert(vstd::utf8::is_ascii_chars(chars));
        vstd::utf8::is_ascii_chars_encode_utf8(chars);
        assert(encode_utf8(chars) =~= bytes@);
        vstd::utf8::encode_utf8_valid_utf8(chars);
        vstd::utf8::encode_utf8_decode_utf8(chars);
    }
    utf8_lossy(bytes.as_slice())
}

/// The characters whose code points are the bytes of `bytes` (ISO 8859-1).
pub open spec fn latin1_chars(bytes: Seq<u8>) -> Seq<char> {
    Seq::new(bytes.len(), |i: int| bytes[i] as char)
}

/// Encoding a sequence with one more character appends that character's
/// encoding.
pub proof fn lemma_encode_utf8_push(chars: Seq<char>, c: char)
    ensures
        encode_utf8(chars.push(c)) == encode_utf8(chars) + vstd::utf8::encode_scalar(c as u32),
    decreases chars.len(),
{
    if chars.len() == 0 {
        assert(chars.push(c).drop_first() =~= Seq::<char>::empty());
        assert(encode_utf8(Seq::<char>::empty()) =~= Seq::<u8>::empty());
        assert(encode_utf8(chars) =~= Seq::<u8>::empty());
    } else {
        assert(chars.push(c).drop_first() =~= chars.drop_first().push(c));
        lemma_encode_utf8_push(chars.drop_first(), c);
        assert(encode_utf8(chars.push(c)) =~= encode_utf8(chars) + vstd::utf8::encode_scalar(c as u32));
    }
}

/// The UTF-8 encoding of the character whose code point is `b`.
pub fn push_latin1_char(out: &mut Vec<u8>, b: u8)
    ensures
        final(out)@ == old(out)@ + vstd::utf8::encode_scalar((b as char) as u32),
{
    assert((b as char) as u32 == b as u32);
    if b < 0x80 {
        assert(((b as u32) & 0x7F) as u8 == b) by (bit_vector)
            requires
                b < 0x80,
        ;
        out.push(b);
    } else {
        let hi: u8 = 0xC0 | (b >> 6u8);
        let lo: u8 = 0x80 | (b & 0x3F);
        assert(vstd::utf8::leading_byte_width_2(b as u32) == hi && vstd::utf8::last_continuation_byte(b as u32) == lo && !vstd::utf8::has_width_1_encoding(b as u32) && vstd::utf8::has_width_2_encoding(b as u32)) by (bit_vector)
            requires
                b >= 0x80,
                hi == 0xC0 | (b >> 6u8),
                lo == 0x80 | (b & 0x3F),
        ;
        out.push(hi);
        out.push(lo);
    }
    assert(out@ =~= old(out)@ + vstd::utf8::encode_scalar((b as char) as u32));
}

/// Whether two strings hold the same characters.
pub fn str_eq(a: &str, b: &str) -> (r: bool)
    ensures
        r == (a@ == b@),
{
    let x = String::from_str(a);
    let y = String::from_str(b);
    x == y
}

} // verus!
