//! Single-block DES, as both VNC authentication schemes use it.
use vstd::prelude::*;
use des::cipher::{BlockCipherDecrypt, BlockCipherEncrypt, KeyInit};

verus! {

/// The DES encryption of the 8-byte `block` under the 8-byte `key`.
pub uninterp spec fn des_encrypt(key: Seq<u8>, block: Seq<u8>) -> Seq<u8>;

/// The DES decryption of the 8-byte `block` under the 8-byte `key`.
pub uninterp spec fn des_decrypt(key: Seq<u8>, block: Seq<u8>) -> Seq<u8>;

/// Encrypts one block with `des::Des` (keyed by `KeyInit::new_from_slice`,
/// then `BlockCipherEncrypt::encrypt_block`).  Claimed: the result is the
/// 8-byte encryption of `block` under `key`, a function of the two alone.
#[verifier::external_body]
pub(crate) fn des_encrypt_block(key: &[u8], block: &[u8]) -> (out: Vec<u8>)
    requires
        key@.len() == 8,
        block@.len() == 8,
    ensures
        out@ == des_encrypt(key@, block@),
        out@.len() == 8,
{
    let cipher = des::Des::new_from_slice(key).unwrap();
    let mut b = des::cipher::Array::try_from(block).unwrap();
    cipher.encrypt_block(&mut b);
    b.to_vec()
}

/// Decrypts one block with `des::Des` (keyed by `KeyInit::new_from_slice`,
/// then `BlockCipherDecrypt::decrypt_block`).  Claimed: the result is the
/// 8-byte decryption of `block` under `key`, a function of the two alone.
#[verifier::external_body]
pub(crate) fn des_decrypt_block(key: &[u8], block: &[u8]) -> (out: Vec<u8>)
    requires
        key@.len() == 8,
        block@.len() == 8,
    ensures
        out@ == des_decrypt(key@, block@),
        out@.len() == 8,
{
    let cipher = des::Des::new_from_slice(key).unwrap();
    let mut b = des::cipher::Array::try_from(block).unwrap();
    cipher.decrypt_block(&mut b);
    b.to_vec()
}

} // verus!
