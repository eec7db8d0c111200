//! VNC authentication: the client proves it knows the password by encrypting
//! a random challenge with it.
use vstd::prelude::*;
use crate::auth_provider::PasswordTable;
use crate::protocol::handshake::security::SecurityResult;
use crate::protocol::handshake::security::des_block::{des_encrypt, des_encrypt_block};

verus! {

/// `b` with its bits in reverse order.
pub open spec fn spec_reverse_bits(b: u8) -> u8 {
    ((b & 1) << 7u8) | ((b & 2) << 5u8) | ((b & 4) << 3u8) | ((b & 8) << 1u8) | ((b & 16) >> 1u8)
        | ((b & 32) >> 3u8) | ((b & 64) >> 5u8) | ((b & 128) >> 7u8)
}

/// `b` with its bits in reverse order.
pub fn reverse_bits(b: u8) -> (r: u8)
    ensures
        r == spec_reverse_bits(b),
{
    ((b & 1) << 7u8) | ((b & 2) << 5u8) | ((b & 4) << 3u8) | ((b & 8) << 1u8) | ((b & 16) >> 1u8)
        | ((b & 32) >> 3u8) | ((b & 64) >> 5u8) | ((b & 128) >> 7u8)
}

/// Reversing really reverses: bit `7 - i` of the result is bit `i` of `b`,
/// for each of the eight bits, so reversing twice gives `b` back.
pub proof fn lemma_reverse_bits_reverses(b: u8)
    ensures
        forall|i: u8| i < 8 ==> #[trigger] ((spec_reverse_bits(b) >> ((7 - i) as u8)) & 1u8) == (b >> i) & 1u8,
        spec_reverse_bits(spec_reverse_bits(b)) == b,
{
    assert forall|i: u8| i < 8 implies #[trigger] ((spec_reverse_bits(b) >> ((7 - i) as u8)) & 1u8) == (b
        >> i) & 1u8 by {
        assert(((spec_reverse_bits(b) >> ((7 - i) as u8)) & 1u8) == (b >> i) & 1u8) by (bit_vector)
            requires
                i < 8,
        ;
    }
    assert(spec_reverse_bits(spec_reverse_bits(b)) == b) by (bit_vector);
}

/// The DES key made from password bytes: the first 8 bytes, padded with zeros
/// when shorter, each with its bits reversed.
pub open spec fn spec_des_key(password: Seq<u8>) -> Seq<u8> {
    Seq::new(8, |i: int| spec_reverse_bits(if i < password.len() { password[i] } else { 0u8 }))
}

/// The response expected to `challenge`: its two halves encrypted with the key
/// made from the password's UTF-8 bytes.
pub open spec fn spec_challenge_response(password: Seq<char>, challenge: Seq<u8>) -> Seq<u8> {
    let key = spec_des_key(vstd::utf8::encode_utf8(password));
    des_encrypt(key, challenge.subrange(0, 8)) + des_encrypt(key, challenge.subrange(8, 16))
}

/// The DES key for `password`.
pub fn des_key(password: &str) -> (key: Vec<u8>)
    ensures
        key@ == spec_des_key(vstd::utf8::encode_utf8(password@)),
{
    let bytes = password.as_bytes();
    let mut key: Vec<u8> = Vec::new();
    let mut i: usize = 0;
    while i < 8
        invariant
            i <= 8,
            bytes@ == vstd::utf8::encode_utf8(password@),
            key@ =~= spec_des_key(bytes@).take(i as int),
        decreases 8 - i,
    {
        let b = if i < bytes.len() { bytes[i] } else { 0u8 };
        key.push(reverse_bits(b));
        i = i + 1;
    }
    assert(key@ =~= spec_des_key(bytes@));
    key
}

/// The response a client knowing `password` sends to `challenge`.
pub fn challenge_response(password: &str, challenge: &[u8]) -> (r: Vec<u8>)
    requires
        challenge@.len() == 16,
    ensures
        r@ == spec_challenge_response(password@, challenge@),
{
    let key = des_key(password);
    let mut first: Vec<u8> = Vec::new();
    crate::wire::push_bytes(&mut first, challenge);
    let second = first.split_off(8);
    assert(first@ =~= challenge@.subrange(0, 8));
    assert(second@ =~= challenge@.subrange(8, 16));
    let mut r = des_encrypt_block(key.as_slice(), first.as_slice());
    let tail = des_encrypt_block(key.as_slice(), second.as_slice());
    crate::wire::push_bytes(&mut r, tail.as_slice());
    r
}

/// Whether the client's `response` to `challenge` shows it knows `password`.
pub fn check(password: &str, challenge: &[u8], response: &[u8]) -> (ok: bool)
    requires
        challenge@.len() == 16,
    ensures
        ok == (response@ == spec_challenge_response(password@, challenge@)),
{
    let expected = challenge_response(password, challenge);
    if response.len() != expected.len() {
        return false;
    }
    let mut i: usize = 0;
    while i < expected.len()
        invariant
            i <= expected@.len(),
            expected@ == spec_challenge_response(password@, challenge@),
            response@.len() == expected@.len(),
            forall|k: int| 0 <= k < i ==> response@[k] == expected@[k],
        decreases expected.len() - i,
    {
        if response[i] != expected[i] {
            assert(response@[i as int] != expected@[i as int]);
            return false;
        }
        i = i + 1;
    }
    assert(response@ =~= expected@);
    true
}

/// The outcome of VNC authentication against the passwords of `table`: the
/// permissions of the first password whose response is `response`; a denial
/// when there is none.
pub fn authorize(table: &PasswordTable, challenge: &[u8], response: &[u8]) -> (r: SecurityResult)
    requires
        challenge@.len() == 16,
    ensures
        match r {
            SecurityResult::Authorized(p) => exists|k: int|
                0 <= k < table.entries@.len() && response@ == spec_challenge_response(
                    table.entries@[k].0@,
                    challenge@,
                ) && p == table.entries@[k].1 && forall|j: int|
                    0 <= j < k ==> response@ != spec_challenge_response(
                        table.entries@[j].0@,
                        challenge@,
                    ),
            SecurityResult::Denied(msg) => msg@ == "Wrong password"@ && forall|k: int|
                0 <= k < table.entries@.len() ==> response@ != spec_challenge_response(
                    table.entries@[k].0@,
                    challenge@,
                ),
        },
{
    let mut i: usize = 0;
    while i < table.entries.len()
        invariant
            i <= table.entries@.len(),
            challenge@.len() == 16,
            forall|j: int|
                0 <= j < i ==> response@ != spec_challenge_response(
                    table.entries@[j].0@,
                    challenge@,
                ),
        decreases table.entries.len() - i,
    {
        let entry = &table.entries[i];
        if check(entry.0.as_str(), challenge, response) {
            return SecurityResult::Authorized(entry.1);
        }
        i = i + 1;
    }
    SecurityResult::Denied(String::from_str("Wrong password"))
}

} // verus!
