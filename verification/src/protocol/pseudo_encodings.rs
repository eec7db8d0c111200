//! Pseudo-encodings: the alpha cursor sent to clients that ask for it.
use vstd::prelude::*;
use crate::protocol::encodings::EncodingType;
use crate::protocol::primitives::Rect;
use crate::protocol::server_msg::{ServerMessage, UpdateRect};
use crate::wire::{i32_be_bytes, push_bytes, push_i32_be};

verus! {

/// The pixels that a PNG image decodes to, or `None` for data that does not
/// decode.
pub uninterp spec fn png_pixels(data: Seq<u8>) -> Option<Seq<u8>>;

/// Decodes the first frame of a PNG image with the `png` crate
/// (`Decoder::new`, `read_info`, `output_buffer_size`, `next_frame`) into a
/// buffer of the output size.  The pixels are a function of the data alone.
#[verifier::external_body]
fn decode_png(data: &[u8]) -> (r: Option<Vec<u8>>)
    ensures
        match r {
            Some(v) => png_pixels(data@) == Some(v@),
            None => png_pixels(data@) is None,
        },
{
    let decoder = png::Decoder::new(std::io::Cursor::new(data));
    let mut reader = decoder.read_info().ok()?;
    let mut buf = vec![0u8; reader.output_buffer_size()?];
    reader.next_frame(&mut buf).ok()?;
    Some(buf)
}

/// Why the cursor could not be sent.
#[derive(Debug, Clone, Copy, PartialEq, Eq, Structural)]
pub enum CursorError {
    /// The cursor image is not a PNG image that decodes.
    InvalidImage,
}

/// The alpha cursor pseudo-encoding.
pub struct AlphaCursorPseudoEncodings;

/// The rectangle the cursor occupies: 32 x 32 at the origin.
pub open spec fn cursor_rect() -> Rect {
    Rect { x_pos: 0, y_pos: 0, width: 32, height: 32 }
}

impl AlphaCursorPseudoEncodings {
    /// The update that sets the client's cursor to the RGBA `pixels`: one
    /// 32 x 32 rectangle at the origin in the cursor pseudo-encoding, whose
    /// data is the raw encoding's number followed by the pixels.
    pub fn message_from_pixels(&self, pixels: &[u8]) -> (m: ServerMessage)
        ensures
            m matches ServerMessage::FramebufferUpdate(rects) && rects@.len() == 1 && rects@[0].rect
                == cursor_rect() && rects@[0].encoding_type == EncodingType::CursorWithAlpha
                && rects@[0].data@ == i32_be_bytes(EncodingType::Raw.spec_value()) + pixels@,
    {
        let mut data: Vec<u8> = Vec::new();
        push_i32_be(&mut data, EncodingType::Raw.to_i32());
        push_bytes(&mut data, pixels);
        let mut rects: Vec<UpdateRect> = Vec::new();
        rects.push(
            UpdateRect {
                rect: Rect { x_pos: 0, y_pos: 0, width: 32, height: 32 },
                encoding_type: EncodingType::CursorWithAlpha,
                data,
            },
        );
        ServerMessage::FramebufferUpdate(rects)
    }

    /// The update that sets the client's cursor to the image `png_data`.
    pub fn get_message(&self, png_data: &[u8]) -> (r: Result<ServerMessage, CursorError>)
        ensures
            match png_pixels(png_data@) {
                Some(pixels) => r matches Ok(ServerMessage::FramebufferUpdate(rects)) && rects@.len()
                    == 1 && rects@[0].rect == cursor_rect() && rects@[0].encoding_type
                    == EncodingType::CursorWithAlpha && rects@[0].data@ == i32_be_bytes(
                    EncodingType::Raw.spec_value(),
                ) + pixels,
                None => r == Err::<ServerMessage, CursorError>(CursorError::InvalidImage),
            },
    {
        match decode_png(png_data) {
            Some(pixels) => Ok(self.message_from_pixels(pixels.as_slice())),
            None => Err(CursorError::InvalidImage),
        }
    }
}

} // verus!
