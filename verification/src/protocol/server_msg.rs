//! Messages from the server to the client, and their wire form.
use vstd::prelude::*;
use crate::protocol::encodings::EncodingType;
use crate::protocol::primitives::{ColorMapEntry, Rect};
use crate::wire::{i32_be_bytes, push_bytes, push_i32_be, push_u16_be, push_u32_be, u16_be_bytes, u32_be_bytes};

verus! {

/// A rectangle of pixel data, encoded with `encoding_type`.
#[derive(Debug, Clone, PartialEq, Eq)]
pub struct UpdateRect {
    pub rect: Rect,
    pub encoding_type: EncodingType,
    pub data: Vec<u8>,
}

impl UpdateRect {
    /// The rectangle, the encoding number (big-endian), then the data.
    pub open spec fn wire_bytes(self) -> Seq<u8> {
        self.rect.wire_bytes() + i32_be_bytes(self.encoding_type.spec_value()) + self.data@
    }

    /// Appends the wire form of the update.
    pub fn write_to(&self, out: &mut Vec<u8>)
        ensures
            final(out)@ == old(out)@ + self.wire_bytes(),
    {
        self.rect.write_to(out);
        push_i32_be(out, self.encoding_type.to_i32());
        push_bytes(out, self.data.as_slice());
        assert(final(out)@ =~= old(out)@ + self.wire_bytes());
    }
}

/// The wire forms of `rects`, one after another.
pub open spec fn rects_bytes(rects: Seq<UpdateRect>) -> Seq<u8>
    decreases rects.len(),
{
    if rects.len() == 0 {
        seq![]
    } else {
        rects_bytes(rects.drop_last()) + rects.last().wire_bytes()
    }
}

/// The wire forms of `colors`, one after another.
pub open spec fn colors_bytes(colors: Seq<ColorMapEntry>) -> Seq<u8>
    decreases colors.len(),
{
    if colors.len() == 0 {
        seq![]
    } else {
        colors_bytes(colors.drop_last()) + colors.last().wire_bytes()
    }
}

/// A message from the server.
#[derive(Debug, Clone, PartialEq, Eq)]
pub enum ServerMessage {
    FramebufferUpdate(Vec<UpdateRect>),
    SetColorMapEntries { first_color: u16, colors: Vec<ColorMapEntry> },
    Bell,
    ServerCutText(String),
}

impl ServerMessage {
    /// The message type byte.
    pub open spec fn spec_type(self) -> u8 {
        match self {
            ServerMessage::FramebufferUpdate(..) => 0,
            ServerMessage::SetColorMapEntries { .. } => 1,
            ServerMessage::Bell => 2,
            ServerMessage::ServerCutText(..) => 3,
        }
    }

    /// The wire form of the message: its type byte, then
    /// - an update: a padding byte, the number of rectangles (as a `u16`,
    ///   truncated) and the rectangles;
    /// - colour map entries: a padding byte, the first colour, the number of
    ///   entries (as a `u16`, truncated) and the entries;
    /// - a bell: nothing;
    /// - cut text: 3 padding bytes, the UTF-8 length (as a `u32`, truncated) and
    ///   the UTF-8 bytes.
    pub open spec fn wire_bytes(self) -> Seq<u8> {
        seq![self.spec_type()] + match self {
            ServerMessage::FramebufferUpdate(rects) => seq![0u8] + u16_be_bytes(
                rects@.len() as u16,
            ) + rects_bytes(rects@),
            ServerMessage::SetColorMapEntries { first_color, colors } => seq![0u8]
                + u16_be_bytes(first_color) + u16_be_bytes(colors@.len() as u16) + colors_bytes(
                colors@,
            ),
            ServerMessage::Bell => seq![],
            ServerMessage::ServerCutText(text) => seq![0u8, 0u8, 0u8] + u32_be_bytes(
                vstd::utf8::encode_utf8(text@).len() as u32,
            ) + vstd::utf8::encode_utf8(text@),
        }
    }

    /// The message type byte.
    pub fn get_type(&self) -> (t: u8)
        ensures
            t == self.spec_type(),
    {
        match self {
            ServerMessage::FramebufferUpdate(..) => 0,
            ServerMessage::SetColorMapEntries { .. } => 1,
            ServerMessage::Bell => 2,
            ServerMessage::ServerCutText(..) => 3,
        }
    }

    /// The wire form of the message.
    pub fn to_bytes(&self) -> (out: Vec<u8>)
        ensures
            out@ == self.wire_bytes(),
    {
        let mut out: Vec<u8> = Vec::new();
        out.push(self.get_type());
        match self {
            ServerMessage::FramebufferUpdate(rects) => {
                out.push(0);
                push_u16_be(&mut out, rects.len() as u16);
                let ghost head = out@;
                let mut i: usize = 0;
                while i < rects.len()
                    invariant
                        i <= rects@.len(),
                        out@ == head + rects_bytes(rects@.take(i as int)),
                    decreases rects.len() - i,
                {
                    let ghost before = out@;
                    rects[i].write_to(&mut out);
                    i = i + 1;
                    assert(rects@.take(i as int).drop_last() =~= rects@.take(i - 1));
                    assert(out@ =~= head + rects_bytes(rects@.take(i as int)));
                }
                assert(rects@.take(i as int) =~= rects@);
            },
            ServerMessage::SetColorMapEntries { first_color, colors } => {
                out.push(0);
                push_u16_be(&mut out, *first_color);
                push_u16_be(&mut out, colors.len() as u16);
                let ghost head = out@;
                let mut i: usize = 0;
                while i < colors.len()
                    invariant
                        i <= colors@.len(),
                        out@ == head + colors_bytes(colors@.take(i as int)),
                    decreases colors.len() - i,
                {
                    colors[i].write_to(&mut out);
                    i = i + 1;
                    assert(colors@.take(i as int).drop_last() =~= colors@.take(i - 1));
                    assert(out@ =~= head + colors_bytes(colors@.take(i as int)));
                }
                assert(colors@.take(i as int) =~= colors@);
            },
            ServerMessage::Bell => {},
            ServerMessage::ServerCutText(text) => {
                out.push(0);
                out.push(0);
                out.push(0);
                let bytes = text.as_str().as_bytes();
                push_u32_be(&mut out, bytes.len() as u32);
                push_bytes(&mut out, bytes);
            },
        }
        assert(out@ =~= self.wire_bytes());
        out
    }
}

} // verus!
