//! Messages from the client to the server, and how they are read.
use vstd::prelude::*;
use crate::protocol::encodings::EncodingType;
use crate::protocol::pixel_format::{lemma_pixel_format_roundtrip, PixelFormat};
use crate::protocol::primitives::{lemma_rect_roundtrip, Flag, Pos, Rect};
use crate::text::{nul_chars, nul_string};
use crate::wire::{
    i32_be_bytes, i32_from_be, lemma_i32_be_roundtrip, lemma_u16_be_roundtrip, lemma_u32_be_roundtrip, read_i32_be, read_u16_be,
    read_u32_be, u16_be_bytes, u16_from_be, u32_be_bytes, u32_from_be,
};

verus! {

/// The state of the mouse buttons: bit 0 left, 1 middle, 2 right, 3 scroll up,
/// 4 scroll down.
#[derive(Debug, Clone, Copy, PartialEq, Eq, Structural)]
pub struct MouseButtonMask(pub u8);

/// A mouse button.
#[derive(Debug, Clone, Copy, PartialEq, Eq, Structural)]
pub enum MouseButton {
    Left,
    Middle,
    Right,
    ScrollUp,
    ScrollDown,
}

/// Whether a button is held down.
#[derive(Debug, Clone, Copy, PartialEq, Eq, Structural)]
pub enum ButtonDirection {
    Press,
    Release,
}

/// Whether bit `shift` of `mask` is set.
pub open spec fn bit_set(mask: u8, shift: u8) -> bool {
    (mask >> shift) & 1 > 0
}

/// `Press` where bit `shift` of `mask` is set, else `Release`.
pub open spec fn spec_bit_to_dir(mask: u8, shift: u8) -> ButtonDirection {
    if bit_set(mask, shift) { ButtonDirection::Press } else { ButtonDirection::Release }
}

/// `Press` where bit `shift` of `mask` is set, else `Release`.
pub fn bit_to_dir(mask: u8, shift: u8) -> (d: ButtonDirection)
    requires
        shift < 8,
    ensures
        d == spec_bit_to_dir(mask, shift),
{
    if (mask >> shift) & 1 > 0 { ButtonDirection::Press } else { ButtonDirection::Release }
}

impl MouseButtonMask {
    /// The mask a received byte stands for.
    pub fn from_byte(value: u8) -> (m: MouseButtonMask)
        ensures
            m.0 == value,
    {
        MouseButtonMask(value)
    }

    /// No button pressed.
    pub fn released() -> (m: MouseButtonMask)
        ensures
            m.0 == 0,
    {
        MouseButtonMask(0)
    }

    /// The direction of each of the five buttons, in the order left, middle,
    /// right, scroll up, scroll down (bits 0 to 4).
    pub fn button_directions(&self) -> (r: Vec<(MouseButton, ButtonDirection)>)
        ensures
            r@ == seq![
                (MouseButton::Left, spec_bit_to_dir(self.0, 0)),
                (MouseButton::Middle, spec_bit_to_dir(self.0, 1)),
                (MouseButton::Right, spec_bit_to_dir(self.0, 2)),
                (MouseButton::ScrollUp, spec_bit_to_dir(self.0, 3)),
                (MouseButton::ScrollDown, spec_bit_to_dir(self.0, 4)),
            ],
    {
        let mut r: Vec<(MouseButton, ButtonDirection)> = Vec::new();
        r.push((MouseButton::Left, bit_to_dir(self.0, 0)));
        r.push((MouseButton::Middle, bit_to_dir(self.0, 1)));
        r.push((MouseButton::Right, bit_to_dir(self.0, 2)));
        r.push((MouseButton::ScrollUp, bit_to_dir(self.0, 3)));
        r.push((MouseButton::ScrollDown, bit_to_dir(self.0, 4)));
        assert(r@ =~= seq![
            (MouseButton::Left, spec_bit_to_dir(self.0, 0)),
            (MouseButton::Middle, spec_bit_to_dir(self.0, 1)),
            (MouseButton::Right, spec_bit_to_dir(self.0, 2)),
            (MouseButton::ScrollUp, spec_bit_to_dir(self.0, 3)),
            (MouseButton::ScrollDown, spec_bit_to_dir(self.0, 4)),
        ]);
        r
    }
}

/// A message from the client.
#[derive(Debug, Clone, PartialEq, Eq)]
pub enum ClientMessage {
    SetPixelFormat(PixelFormat),
    SetEncodings(Vec<EncodingType>),
    FramebufferUpdateRequest { incremental: Flag, rect: Rect },
    KeyEvent { pressed: Flag, key: u32 },
    PointerEvent { buttons: MouseButtonMask, pos: Pos },
    ClientCutText(String),
}

/// A client message with its contents taken as sequences.
pub enum ClientMessageView {
    SetPixelFormat(PixelFormat),
    SetEncodings(Seq<EncodingType>),
    FramebufferUpdateRequest { incremental: Flag, rect: Rect },
    KeyEvent { pressed: Flag, key: u32 },
    PointerEvent { buttons: MouseButtonMask, pos: Pos },
    ClientCutText(Seq<char>),
}

impl View for ClientMessage {
    type V = ClientMessageView;

    open spec fn view(&self) -> ClientMessageView {
        match self {
            ClientMessage::SetPixelFormat(f) => ClientMessageView::SetPixelFormat(*f),
            ClientMessage::SetEncodings(e) => ClientMessageView::SetEncodings(e@),
            ClientMessage::FramebufferUpdateRequest { incremental, rect } => {
                ClientMessageView::FramebufferUpdateRequest { incremental: *incremental, rect: *rect }
            },
            ClientMessage::KeyEvent { pressed, key } => ClientMessageView::KeyEvent {
                pressed: *pressed,
                key: *key,
            },
            ClientMessage::PointerEvent { buttons, pos } => ClientMessageView::PointerEvent {
                buttons: *buttons,
                pos: *pos,
            },
            ClientMessage::ClientCutText(t) => ClientMessageView::ClientCutText(t@),
        }
    }
}

/// Why a client message could not be read.
#[derive(Debug, Clone, Copy, PartialEq, Eq, Structural)]
pub enum ClientMessageError {
    /// The bytes end before the message does.
    Incomplete,
}

/// Whether the first byte of `s` is a message type this server reads
/// (0, 2, 3, 4, 5 or 6), or there is no byte yet.
pub open spec fn known_message_start(s: Seq<u8>) -> bool {
    s.len() == 0 || s[0] == 0 || s[0] == 2 || s[0] == 3 || s[0] == 4 || s[0] == 5 || s[0] == 6
}

/// The encodings listed from byte 4 of `s` on, `n` of them (big-endian `i32`s).
pub open spec fn encodings_from_wire(s: Seq<u8>, n: nat) -> Seq<EncodingType> {
    Seq::new(
        n,
        |k: int| EncodingType::spec_from_i32(i32_from_be(s[4 + 4 * k], s[5 + 4 * k], s[6 + 4 * k], s[7 + 4 * k])),
    )
}

/// The message at the start of `s` and the number of bytes it takes, or
/// `None` where `s` ends before it does.
/// - 0, set pixel format: 3 padding bytes and a pixel format (20 bytes);
/// - 2, set encodings: a padding byte, a count `n` and `n` encoding numbers;
/// - 3, update request: the incremental flag and a rectangle (10 bytes);
/// - 4, key event: the pressed flag, 2 padding bytes and the key symbol (8 bytes);
/// - 5, pointer event: the button mask and a position (6 bytes);
/// - 6, cut text: 3 padding bytes and a length `len` (8 bytes); the text is
///   taken to be `len` NUL characters and its bytes are not consumed.
pub open spec fn spec_parse_client_message(s: Seq<u8>) -> Option<(ClientMessageView, nat)> {
    if s.len() == 0 {
        None
    } else if s[0] == 0 {
        if s.len() < 20 {
            None
        } else {
            Some((ClientMessageView::SetPixelFormat(PixelFormat::from_wire(s.skip(4))), 20))
        }
    } else if s[0] == 2 {
        if s.len() < 4 {
            None
        } else {
            let n = u16_from_be(s[2], s[3]) as nat;
            if s.len() < 4 + 4 * n {
                None
            } else {
                Some((ClientMessageView::SetEncodings(encodings_from_wire(s, n)), 4 + 4 * n))
            }
        }
    } else if s[0] == 3 {
        if s.len() < 10 {
            None
        } else {
            Some(
                (
                    ClientMessageView::FramebufferUpdateRequest {
                        incremental: Flag::spec_from_byte(s[1]),
                        rect: Rect::from_wire(s.skip(2)),
                    },
                    10,
                ),
            )
        }
    } else if s[0] == 4 {
        if s.len() < 8 {
            None
        } else {
            Some(
                (
                    ClientMessageView::KeyEvent {
                        pressed: Flag::spec_from_byte(s[1]),
                        key: u32_from_be(s[4], s[5], s[6], s[7]),
                    },
                    8,
                ),
            )
        }
    } else if s[0] == 5 {
        if s.len() < 6 {
            None
        } else {
            Some(
                (
                    ClientMessageView::PointerEvent {
                        buttons: MouseButtonMask(s[1]),
                        pos: Pos::from_wire(s.skip(2)),
                    },
                    6,
                ),
            )
        }
    } else {
        if s.len() < 8 {
            None
        } else {
            Some(
                (
                    ClientMessageView::ClientCutText(
                        nul_chars(u32_from_be(s[4], s[5], s[6], s[7]) as nat),
                    ),
                    8,
                ),
            )
        }
    }
}

impl ClientMessage {
    /// Whether `data` is empty or starts with a message type this server reads.
    pub fn is_known_start(data: &[u8]) -> (b: bool)
        ensures
            b == known_message_start(data@),
    {
        if data.len() == 0 {
            return true;
        }
        let t = data[0];
        t == 0 || t == 2 || t == 3 || t == 4 || t == 5 || t == 6
    }

    /// Reads the message at the start of `data`, with the number of bytes it
    /// took; `Incomplete` where `data` ends before the message does.
    pub fn parse(data: &[u8]) -> (r: Result<(ClientMessage, usize), ClientMessageError>)
        requires
            known_message_start(data@),
        ensures
            match spec_parse_client_message(data@) {
                Some((msg, n)) => r matches Ok((m, k)) && m@ == msg && k == n,
                None => r == Err::<(ClientMessage, usize), ClientMessageError>(
                    ClientMessageError::Incomplete,
                ),
            },
    {
        let len = data.len();
        if len == 0 {
            return Err(ClientMessageError::Incomplete);
        }
        let kind = data[0];
        if kind == 0 {
            if len < 20 {
                return Err(ClientMessageError::Incomplete);
            }
            Ok((ClientMessage::SetPixelFormat(PixelFormat::read_from(data, 4)), 20))
        } else if kind == 2 {
            if len < 4 {
                return Err(ClientMessageError::Incomplete);
            }
            let n = read_u16_be(data, 2) as usize;
            if len < 4 + 4 * n {
                return Err(ClientMessageError::Incomplete);
            }
            let mut encodings: Vec<EncodingType> = Vec::new();
            let mut k: usize = 0;
            while k < n
                invariant
                    k <= n,
                    4 + 4 * n <= data@.len(),
                    data@.len() == data.len(),
                    n == u16_from_be(data@[2], data@[3]),
                    encodings@ =~= encodings_from_wire(data@, n as nat).take(k as int),
                decreases n - k,
            {
                let v = read_i32_be(data, 4 + 4 * k);
                encodings.push(EncodingType::from_i32(v));
                k = k + 1;
            }
            assert(encodings_from_wire(data@, n as nat).take(n as int) =~= encodings_from_wire(
                data@,
                n as nat,
            ));
            Ok((ClientMessage::SetEncodings(encodings), 4 + 4 * n))
        } else if kind == 3 {
            if len < 10 {
                return Err(ClientMessageError::Incomplete);
            }
            Ok(
                (
                    ClientMessage::FramebufferUpdateRequest {
                        incremental: Flag::from_byte(data[1]),
                        rect: Rect::read_from(data, 2),
                    },
                    10,
                ),
            )
        } else if kind == 4 {
            if len < 8 {
                return Err(ClientMessageError::Incomplete);
            }
            Ok(
                (
                    ClientMessage::KeyEvent {
                        pressed: Flag::from_byte(data[1]),
                        key: read_u32_be(data, 4),
                    },
                    8,
                ),
            )
        } else if kind == 5 {
            if len < 6 {
                return Err(ClientMessageError::Incomplete);
            }
            Ok(
                (
                    ClientMessage::PointerEvent {
                        buttons: MouseButtonMask::from_byte(data[1]),
                        pos: Pos::read_from(data, 2),
                    },
                    6,
                ),
            )
        } else {
            if len < 8 {
                return Err(ClientMessageError::Incomplete);
            }
            let text_len = read_u32_be(data, 4);
            Ok((ClientMessage::ClientCutText(nul_string(text_len as usize)), 8))
        }
    }
}

/// A pixel format request made of a pixel format's wire form is read back as
/// that pixel format, taking 20 bytes.
pub proof fn lemma_set_pixel_format_roundtrip(f: PixelFormat)
    ensures
        spec_parse_client_message(seq![0u8, 0u8, 0u8, 0u8] + f.wire_bytes()) == Some(
            (ClientMessageView::SetPixelFormat(f), 20nat),
        ),
{
    lemma_pixel_format_roundtrip(f);
    let s = seq![0u8, 0u8, 0u8, 0u8] + f.wire_bytes();
    assert(s.skip(4) =~= f.wire_bytes());
}

/// An update request made of a flag byte and a rectangle's wire form is read
/// back as that request, taking 10 bytes.
pub proof fn lemma_update_request_roundtrip(incremental: Flag, rect: Rect)
    ensures
        spec_parse_client_message(seq![3u8, incremental.spec_byte()] + rect.wire_bytes()) == Some(
            (ClientMessageView::FramebufferUpdateRequest { incremental, rect }, 10nat),
        ),
{
    lemma_rect_roundtrip(rect);
    crate::protocol::primitives::lemma_flag_roundtrip(incremental);
    let s = seq![3u8, incremental.spec_byte()] + rect.wire_bytes();
    assert(s.skip(2) =~= rect.wire_bytes());
}

/// A key event made of the type byte 4, the down-flag's byte, two padding
/// bytes (whatever they hold) and the key's big-endian bytes is read back as
/// that key event, taking 8 bytes.
pub proof fn lemma_key_event_roundtrip(pressed: Flag, pad0: u8, pad1: u8, key: u32)
    ensures
        spec_parse_client_message(seq![4u8, pressed.spec_byte(), pad0, pad1] + u32_be_bytes(key))
            == Some((ClientMessageView::KeyEvent { pressed, key }, 8nat)),
{
    lemma_u32_be_roundtrip(key);
    crate::protocol::primitives::lemma_flag_roundtrip(pressed);
}

/// A pointer event made of the type byte 5, the button mask and the
/// position's big-endian coordinates is read back as that pointer event,
/// taking 6 bytes.
pub proof fn lemma_pointer_event_roundtrip(buttons: u8, x: u16, y: u16)
    ensures
        spec_parse_client_message(seq![5u8, buttons] + u16_be_bytes(x) + u16_be_bytes(y)) == Some(
            (
                ClientMessageView::PointerEvent {
                    buttons: MouseButtonMask(buttons),
                    pos: Pos { x_pos: x, y_pos: y },
                },
                6nat,
            ),
        ),
{
    lemma_u16_be_roundtrip(x);
    lemma_u16_be_roundtrip(y);
    let s = seq![5u8, buttons] + u16_be_bytes(x) + u16_be_bytes(y);
    assert(s.skip(2) =~= u16_be_bytes(x) + u16_be_bytes(y));
}

/// A cut-text header made of the type byte 6, three padding bytes and the
/// text length's big-endian bytes is read back as a text of that many
/// characters, taking the 8 header bytes.
pub proof fn lemma_cut_text_roundtrip(pad0: u8, pad1: u8, pad2: u8, len: u32)
    ensures
        spec_parse_client_message(seq![6u8, pad0, pad1, pad2] + u32_be_bytes(len)) == Some(
            (ClientMessageView::ClientCutText(nul_chars(len as nat)), 8nat),
        ),
{
    lemma_u32_be_roundtrip(len);
}

/// The encoding numbers of `encodings`, each as four big-endian bytes.
pub open spec fn encodings_wire(encodings: Seq<EncodingType>) -> Seq<u8> {
    Seq::new(4 * encodings.len(), |j: int| i32_be_bytes(encodings[j / 4].spec_value())[j % 4])
}

/// A list of encodings made of the type byte 2, a padding byte, the count
/// (big-endian) and each encoding's number is read back as that list, in
/// order, taking all of its bytes.
pub proof fn lemma_set_encodings_roundtrip(pad: u8, encodings: Seq<EncodingType>)
    requires
        encodings.len() <= 0xffff,
    ensures
        spec_parse_client_message(
            seq![2u8, pad] + u16_be_bytes(encodings.len() as u16) + encodings_wire(encodings),
        ) == Some((ClientMessageView::SetEncodings(encodings), 4 + 4 * encodings.len())),
{
    let n = encodings.len();
    lemma_u16_be_roundtrip(n as u16);
    let w = encodings_wire(encodings);
    let s = seq![2u8, pad] + u16_be_bytes(n as u16) + w;
    assert(s.len() == 4 + 4 * n);
    assert forall|k: int| 0 <= k < n implies #[trigger] encodings_from_wire(s, n)[k] == encodings[k] by {
        let v = encodings[k].spec_value();
        lemma_i32_be_roundtrip(v);
        assert((4 * k) / 4 == k && (4 * k + 1) / 4 == k && (4 * k + 2) / 4 == k && (4 * k + 3) / 4 == k);
        assert((4 * k) % 4 == 0 && (4 * k + 1) % 4 == 1 && (4 * k + 2) % 4 == 2 && (4 * k + 3) % 4 == 3);
        assert(s[4 + 4 * k] == w[4 * k]);
        assert(s[5 + 4 * k] == w[4 * k + 1]);
        assert(s[6 + 4 * k] == w[4 * k + 2]);
        assert(s[7 + 4 * k] == w[4 * k + 3]);
    }
    assert(encodings_from_wire(s, n) =~= encodings);
}

} // verus!
