//! The connection handshake: version, security and initialisation messages.
pub mod init;
pub mod security;
pub mod version;

use vstd::prelude::*;
use crate::wire::{push_bytes, push_u32_be, u32_be_bytes};

verus! {

/// The reason string of a failed handshake on the wire: its UTF-8 length
/// (big-endian `u32`, truncated) then its UTF-8 bytes.
pub open spec fn handshake_error_wire(msg: Seq<char>) -> Seq<u8> {
    u32_be_bytes(vstd::utf8::encode_utf8(msg).len() as u32) + vstd::utf8::encode_utf8(msg)
}

/// The bytes that report a failed handshake with reason `msg`.
pub fn handshake_error_bytes(msg: &str) -> (out: Vec<u8>)
    ensures
        out@ == handshake_error_wire(msg@),
{
    let bytes = msg.as_bytes();
    let mut out: Vec<u8> = Vec::new();
    push_u32_be(&mut out, bytes.len() as u32);
    push_bytes(&mut out, bytes);
    out
}

} // verus!
