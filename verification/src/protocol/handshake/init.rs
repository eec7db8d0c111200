//! The initialisation messages that end the handshake.
use vstd::prelude::*;
use crate::protocol::pixel_format::PixelFormat;
use crate::wire::{push_bytes, push_u16_be, push_u32_be, u16_be_bytes, u32_be_bytes};

verus! {

/// Whether the client shares the desktop with other clients.
#[derive(Debug, Clone, Copy, PartialEq, Eq, Structural)]
pub enum ClientInit {
    Share,
    Exclusive,
}

impl ClientInit {
    /// The choice a received byte stands for: 1 is exclusive, anything else shared.
    pub open spec fn spec_from_byte(b: u8) -> ClientInit {
        if b == 1 { ClientInit::Exclusive } else { ClientInit::Share }
    }

    /// Reads the choice from its byte.
    pub fn from_byte(b: u8) -> (c: ClientInit)
        ensures
            c == ClientInit::spec_from_byte(b),
    {
        if b == 1 { ClientInit::Exclusive } else { ClientInit::Share }
    }
}

/// What the server tells the client once it is admitted.
#[derive(Debug, Clone, PartialEq, Eq)]
pub struct ServerInit {
    pub fb_width: u16,
    pub fb_height: u16,
    pub pixel_format: PixelFormat,
    pub name: String,
}

impl ServerInit {
    /// Width, height, pixel format, then the name's UTF-8 length (big-endian
    /// `u32`, truncated) and bytes.
    pub open spec fn wire_bytes(self) -> Seq<u8> {
        u16_be_bytes(self.fb_width) + u16_be_bytes(self.fb_height) + self.pixel_format.wire_bytes()
            + u32_be_bytes(vstd::utf8::encode_utf8(self.name@).len() as u32)
            + vstd::utf8::encode_utf8(self.name@)
    }

    /// The wire form of the message.
    pub fn to_bytes(&self) -> (out: Vec<u8>)
        ensures
            out@ == self.wire_bytes(),
    {
        let mut out: Vec<u8> = Vec::new();
        push_u16_be(&mut out, self.fb_width);
        push_u16_be(&mut out, self.fb_height);
        self.pixel_format.write_to(&mut out);
        let bytes = self.name.as_str().as_bytes();
        push_u32_be(&mut out, bytes.len() as u32);
        push_bytes(&mut out, bytes);
        assert(out@ =~= self.wire_bytes());
        out
    }
}

} // verus!
