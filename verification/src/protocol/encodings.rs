//! Encoding types and the encoders that produce framebuffer updates.
use vstd::prelude::*;
use crate::protocol::pixel_format::{
    lemma_convert_bytes_len, lemma_pixel_bytes_order, BitsPerPixel, PixelFormat, PixelFormatError,
};
use crate::protocol::primitives::{Flag, Rect};
use crate::protocol::server_msg::UpdateRect;
use crate::wire::u32_be_bytes;
use rfb_encodings::PixelFormat as RfbFormat;

verus! {

/// The zlib stream state that ZRLE keeps from one update to the next.
#[verifier::external_type_specification]
#[verifier::external_body]
pub struct ExCompress(flate2::Compress);

/// A pixel format as the encoding crate takes it.
#[verifier::external_type_specification]
#[verifier::external_body]
pub struct ExRfbPixelFormat(RfbFormat);

/// The zlib streams that Tight keeps from one update to the next.
#[verifier::external_type_specification]
#[verifier::external_body]
pub struct ExSimpleTightCompressor(rfb_encodings::tight::SimpleTightCompressor);

/// An encoding (or pseudo-encoding) a client may ask for.
#[derive(Debug, Clone, Copy, PartialEq, Eq, Structural)]
pub enum EncodingType {
    Raw,
    Tight,
    ZRLE,
    CursorWithAlpha,
}

impl EncodingType {
    /// The number of the encoding on the wire.
    pub open spec fn spec_value(self) -> i32 {
        match self {
            EncodingType::Raw => 0,
            EncodingType::Tight => 7,
            EncodingType::ZRLE => 16,
            EncodingType::CursorWithAlpha => -314i32,
        }
    }

    /// The encoding a number stands for; unknown numbers are `Raw`.
    pub open spec fn spec_from_i32(v: i32) -> EncodingType {
        if v == 7 {
            EncodingType::Tight
        } else if v == 16 {
            EncodingType::ZRLE
        } else if v == -314 {
            EncodingType::CursorWithAlpha
        } else {
            EncodingType::Raw
        }
    }

    /// Pseudo-encodings (negative numbers) announce capabilities, not pixel encodings.
    pub open spec fn spec_is_pseudo(self) -> bool {
        self.spec_value() < 0
    }

    /// Whether the encoding may be picked to encode pixels other than raw.
    pub open spec fn is_candidate(self) -> bool {
        !self.spec_is_pseudo() && self != EncodingType::Raw
    }

    /// Whether this is a pseudo-encoding (a negative number).
    pub fn is_pseudo(&self) -> (r: bool)
        ensures
            r == self.spec_is_pseudo(),
    {
        self.to_i32() < 0
    }

    /// The first encoding of `list` that is neither a pseudo-encoding nor raw;
    /// raw when there is none.
    pub open spec fn spec_pick_encoder(list: Seq<EncodingType>) -> EncodingType
        decreases list.len(),
    {
        if list.len() == 0 {
            EncodingType::Raw
        } else if list[0].is_candidate() {
            list[0]
        } else {
            EncodingType::spec_pick_encoder(list.drop_first())
        }
    }

    /// The first encoding of the client's list that is neither a pseudo-encoding
    /// nor raw; raw when there is none.
    pub fn pick_encoder(available_list: &[EncodingType]) -> (e: EncodingType)
        ensures
            e == EncodingType::spec_pick_encoder(available_list@),
            !e.spec_is_pseudo(),
            e == EncodingType::Raw <==> forall|i: int|
                0 <= i < available_list@.len() ==> !(#[trigger] available_list@[i]).is_candidate(),
            e != EncodingType::Raw ==> exists|i: int|
                0 <= i < available_list@.len() && available_list@[i] == e && forall|j: int|
                    0 <= j < i ==> !(#[trigger] available_list@[j]).is_candidate(),
    {
        let mut i: usize = 0;
        assert(available_list@.skip(0) =~= available_list@);
        while i < available_list.len()
            invariant
                i <= available_list@.len(),
                forall|j: int| 0 <= j < i ==> !(#[trigger] available_list@[j]).is_candidate(),
                EncodingType::spec_pick_encoder(available_list@) == EncodingType::spec_pick_encoder(
                    available_list@.skip(i as int),
                ),
            decreases available_list.len() - i,
        {
            let enc = available_list[i];
            assert(available_list@.skip(i as int)[0] == enc);
            if !enc.is_pseudo() && enc != EncodingType::Raw {
                return enc;
            }
            assert(available_list@.skip(i as int).drop_first() =~= available_list@.skip(i + 1));
            i = i + 1;
        }
        assert(available_list@.skip(i as int).len() == 0);
        EncodingType::Raw
    }

    /// `enc` is an encoder of this encoding made for a `width` x `height`
    /// screen, converting from `src_format` to `client_format` (Tight with
    /// quality and compression level 6).
    pub open spec fn made_encoder(self, width: u16, height: u16, src_format: PixelFormat, client_format: PixelFormat, enc: SelectedEncoder) -> bool {
        enc.spec_encoding_type() == self && match enc {
            SelectedEncoder::Raw(raw) => raw.src_pixel_format == src_format
                && raw.dest_pixel_format == client_format,
            SelectedEncoder::ZRLE(zrle) => zrle.src_pixel_format == src_format
                && zrle.client_pixel_format == client_format && zrle.frames@.len() == 0,
            SelectedEncoder::Tight(tight) => tight.src_pixel_format == src_format
                && tight.client_pixel_format == client_format && tight.width == width
                && tight.height == height && tight.quality == 6 && tight.compression_level == 6
                && tight.frames@.len() == 0,
        }
    }

    /// The encoder for this encoding, converting frames from `src_format` to
    /// `client_format`; a pseudo-encoding has none.
    pub fn init_encoder(&self, width: u16, height: u16, src_format: PixelFormat, client_format: PixelFormat) -> (r: Result<SelectedEncoder, EncodeError>)
        ensures
            match r {
                Ok(enc) => self.made_encoder(width, height, src_format, client_format, enc),
                Err(e) => *self == EncodingType::CursorWithAlpha && e == EncodeError::NotAnEncoding,
            },
    {
        match self {
            EncodingType::Raw => Ok(SelectedEncoder::Raw(RawEncoder {
                src_pixel_format: src_format,
                dest_pixel_format: client_format,
            })),
            EncodingType::ZRLE => Ok(SelectedEncoder::ZRLE(ZRLEEncoder {
                compressor: new_zrle_compressor(),
                src_pixel_format: src_format,
                client_pixel_format: client_format,
                frames: Ghost(Seq::empty()),
            })),
            EncodingType::Tight => {
                let compression_level: u8 = 6;
                Ok(SelectedEncoder::Tight(TightEncoder {
                    width,
                    height,
                    compressor: new_tight_compressor(compression_level),
                    src_pixel_format: src_format,
                    client_pixel_format: client_format,
                    quality: 6,
                    compression_level,
                    frames: Ghost(Seq::empty()),
                }))
            },
            EncodingType::CursorWithAlpha => Err(EncodeError::NotAnEncoding),
        }
    }

    /// Reads an encoding from its number.
    pub fn from_i32(v: i32) -> (e: EncodingType)
        ensures
            e == EncodingType::spec_from_i32(v),
    {
        if v == 7 {
            EncodingType::Tight
        } else if v == 16 {
            EncodingType::ZRLE
        } else if v == -314 {
            EncodingType::CursorWithAlpha
        } else {
            EncodingType::Raw
        }
    }

    /// The number of the encoding on the wire.
    pub fn to_i32(&self) -> (v: i32)
        ensures
            v == self.spec_value(),
    {
        match self {
            EncodingType::Raw => 0,
            EncodingType::Tight => 7,
            EncodingType::ZRLE => 16,
            EncodingType::CursorWithAlpha => -314i32,
        }
    }
}

/// Why a rectangle could not be encoded.
#[derive(Debug, Clone, Copy, PartialEq, Eq, Structural)]
pub enum EncodeError {
    /// The pixel data could not be converted to the client's format.
    Conversion(PixelFormatError),
    /// The compressor failed, or the data was too short for the rectangle.
    Compression,
    /// A pseudo-encoding cannot encode pixels.
    NotAnEncoding,
}

/// Turns frames into framebuffer updates.
pub trait Encoder {
    /// The rectangles and data that `encode` accepts.
    spec fn encode_defined(&self, requested_rect: Rect, data: Seq<u8>) -> bool;

    /// The encoding that the updates use.
    spec fn spec_encoding_type(&self) -> EncodingType;

    /// The encoding that the updates use.
    fn encoding_type(&self) -> (e: EncodingType)
        ensures
            e == self.spec_encoding_type(),
    ;

    /// Whether `encode` accepts `data` for `requested_rect`.
    fn can_encode(&self, requested_rect: Rect, data: &[u8]) -> (b: bool)
        ensures
            b == self.encode_defined(requested_rect, data@),
    ;

    /// Encodes the pixels `data` of `requested_rect` (in the source format).
    fn encode(&mut self, requested_rect: Rect, data: Vec<u8>) -> (r: Result<
        Vec<UpdateRect>,
        EncodeError,
    >)
        requires
            old(self).encode_defined(requested_rect, data@),
        ensures
            r matches Ok(v) ==> forall|i: int|
                0 <= i < v@.len() ==> (#[trigger] v@[i]).encoding_type
                    == final(self).spec_encoding_type(),
    ;

    /// Takes the pixel format the client asked for.
    fn set_pixel_format(&mut self, format: PixelFormat);
}

/// Sends pixels as they are, converted to the client's format.
pub struct RawEncoder {
    pub src_pixel_format: PixelFormat,
    pub dest_pixel_format: PixelFormat,
}

impl RawEncoder {
    /// `r` is what encoding `data` for `rect` gives: one update of the
    /// rectangle holding the data converted in place to the client's format.
    pub open spec fn encode_result(self, rect: Rect, data: Seq<u8>, r: Result<Vec<UpdateRect>, EncodeError>) -> bool {
        match self.src_pixel_format.spec_convert_in_place(self.dest_pixel_format, data) {
            Ok(converted) => r matches Ok(v) && v@.len() == 1 && v@[0].rect == rect
                && v@[0].encoding_type == EncodingType::Raw && v@[0].data@ == converted,
            Err(e) => r == Err::<Vec<UpdateRect>, EncodeError>(EncodeError::Conversion(e)),
        }
    }
}

impl Encoder for RawEncoder {
    open spec fn encode_defined(&self, requested_rect: Rect, data: Seq<u8>) -> bool {
        self.src_pixel_format.in_place_conversion_defined(self.dest_pixel_format, data)
    }

    open spec fn spec_encoding_type(&self) -> EncodingType {
        EncodingType::Raw
    }

    fn encoding_type(&self) -> (e: EncodingType) {
        EncodingType::Raw
    }

    fn can_encode(&self, requested_rect: Rect, data: &[u8]) -> (b: bool) {
        self.src_pixel_format.can_convert_in_place(&self.dest_pixel_format, data)
    }

    /// One update covering the requested rectangle, holding the data converted
    /// in place to the client's format.
    fn encode(&mut self, requested_rect: Rect, data: Vec<u8>) -> (r: Result<
        Vec<UpdateRect>,
        EncodeError,
    >)
        ensures
            *final(self) == *old(self),
            old(self).encode_result(requested_rect, data@, r),
    {
        let mut data = data;
        match self.src_pixel_format.convert_data_in_place(&self.dest_pixel_format, &mut data) {
            Ok(()) => {},
            Err(e) => {
                return Err(EncodeError::Conversion(e));
            },
        }
        let mut updates: Vec<UpdateRect> = Vec::new();
        updates.push(
            UpdateRect { rect: requested_rect, encoding_type: self.encoding_type(), data },
        );
        Ok(updates)
    }

    /// The raw encoder keeps the formats it was made with.
    fn set_pixel_format(&mut self, format: PixelFormat)
        ensures
            *final(self) == *old(self),
    {
    }
}

/// Sends pixels with ZRLE, keeping one zlib stream for the connection.
pub struct ZRLEEncoder {
    pub compressor: flate2::Compress,
    pub src_pixel_format: PixelFormat,
    pub client_pixel_format: PixelFormat,
    /// The frames handed to the ZRLE encoding so far, in order, each in the
    /// client's format.
    pub frames: Ghost<Seq<Seq<u8>>>,
}

impl ZRLEEncoder {
    /// The frames handed to the ZRLE encoding once `data` is encoded: the
    /// data converted to the client's format is added, unless it cannot be
    /// converted.
    pub open spec fn frames_after(self, data: Seq<u8>) -> Seq<Seq<u8>> {
        match self.src_pixel_format.spec_convert_in_place(self.client_pixel_format, data) {
            Ok(converted) => self.frames@.push(converted),
            Err(_) => self.frames@,
        }
    }

    /// ZRLE-encodes `input`, noting its data as the next frame handed over.
    fn encode_frame(&mut self, input: &EncodeInput) -> (r: Result<Vec<u8>, EncodeError>)
        requires
            zrle_call_defined(input.format, input.width, input.height, input.data@.len()),
            input.flags == spec_format_flags(input.format),
        ensures
            final(self).frames@ == old(self).frames@.push(input.data@),
            final(self).src_pixel_format == old(self).src_pixel_format,
            final(self).client_pixel_format == old(self).client_pixel_format,
            input.data@.len() < input.width * input.height * (input.format.bits_per_pixel.spec_byte()
                / 8) ==> r is Err,
            r matches Ok(v) ==> v@.len() >= 4 && v@.take(4) == u32_be_bytes((v@.len() - 4) as u32),
            r matches Err(e) ==> e == EncodeError::Compression,
    {
        let r = zrle_encode(input, &mut self.compressor);
        self.frames = Ghost(self.frames@.push(input.data@));
        r
    }

    /// `r` is what encoding `data` for `rect` gives: the data is converted in
    /// place; too few pixels for the rectangle is a compression error; a
    /// success is one update of the rectangle whose data starts with its
    /// compressed length.
    pub open spec fn encode_result(self, rect: Rect, data: Seq<u8>, r: Result<Vec<UpdateRect>, EncodeError>) -> bool {
        match self.src_pixel_format.spec_convert_in_place(self.client_pixel_format, data) {
            Ok(converted) => {
                &&& converted.len() < rect.width * rect.height * (
                self.client_pixel_format.bits_per_pixel.spec_byte() / 8) ==> r
                    == Err::<Vec<UpdateRect>, EncodeError>(EncodeError::Compression)
                &&& r matches Ok(v) ==> v@.len() == 1 && v@[0].rect == rect
                    && v@[0].encoding_type == EncodingType::ZRLE && v@[0].data@.len() >= 4
                    && v@[0].data@.take(4) == u32_be_bytes((v@[0].data@.len() - 4) as u32)
                &&& r matches Err(e) ==> e == EncodeError::Compression
            },
            Err(e) => r == Err::<Vec<UpdateRect>, EncodeError>(EncodeError::Conversion(e)),
        }
    }
}

impl Encoder for ZRLEEncoder {
    open spec fn encode_defined(&self, requested_rect: Rect, data: Seq<u8>) -> bool {
        &&& self.src_pixel_format.in_place_conversion_defined(self.client_pixel_format, data)
        &&& self.src_pixel_format.spec_convert_in_place(self.client_pixel_format, data) matches Ok(
            converted,
        ) ==> zrle_call_defined(
            self.client_pixel_format,
            requested_rect.width,
            requested_rect.height,
            converted.len(),
        )
    }

    open spec fn spec_encoding_type(&self) -> EncodingType {
        EncodingType::ZRLE
    }

    fn encoding_type(&self) -> (e: EncodingType) {
        EncodingType::ZRLE
    }

    fn can_encode(&self, requested_rect: Rect, data: &[u8]) -> (b: bool) {
        let src = &self.src_pixel_format;
        let client = &self.client_pixel_format;
        if !src.can_convert_in_place(client, data) {
            return false;
        }
        if src.true_color == Flag::No || client.true_color == Flag::No {
            return true;
        }
        if *src == *client {
            return zrle_call_ok(client, requested_rect.width, requested_rect.height, data.len() as u128);
        }
        if src.bits_per_pixel.to_byte() < client.bits_per_pixel.to_byte() {
            return true;
        }
        let width = src.bits_per_pixel.bytes_size();
        let client_width = client.bits_per_pixel.bytes_size();
        proof {
            lemma_convert_bytes_len(*src, *client, data@);
        }
        let pixels = (data.len() / width) as u128;
        assert(pixels * client_width <= 0xffff_ffff_ffff_ffff * 4) by (nonlinear_arith)
            requires
                pixels <= 0xffff_ffff_ffff_ffff,
                client_width <= 4,
        ;
        let converted_len = pixels * client_width as u128;
        zrle_call_ok(client, requested_rect.width, requested_rect.height, converted_len)
    }

    /// Converts the data in place to the client's format, then ZRLE-encodes it
    /// as one update of the requested rectangle.
    fn encode(&mut self, requested_rect: Rect, data: Vec<u8>) -> (r: Result<
        Vec<UpdateRect>,
        EncodeError,
    >)
        ensures
            final(self).src_pixel_format == old(self).src_pixel_format,
            final(self).client_pixel_format == old(self).client_pixel_format,
            final(self).frames@ == old(self).frames_after(data@),
            old(self).encode_result(requested_rect, data@, r),
    {
        let mut data = data;
        match self.src_pixel_format.convert_data_in_place(&self.client_pixel_format, &mut data) {
            Ok(()) => {},
            Err(e) => {
                return Err(EncodeError::Conversion(e));
            },
        }
        let input = encode_input(
            data,
            requested_rect.width,
            requested_rect.height,
            self.client_pixel_format,
        );
        let encoded = self.encode_frame(&input)?;
        let mut updates: Vec<UpdateRect> = Vec::new();
        updates.push(
            UpdateRect { rect: requested_rect, encoding_type: self.encoding_type(), data: encoded },
        );
        Ok(updates)
    }

    /// Later updates are encoded for `format`.
    fn set_pixel_format(&mut self, format: PixelFormat)
        ensures
            *final(self) == (ZRLEEncoder { client_pixel_format: format, ..*old(self) }),
    {
        self.client_pixel_format = format;
    }
}

/// The format the Tight encoder reads: 32-bit big-endian RGB, red in the top byte.
pub open spec fn tight_input_format() -> PixelFormat {
    PixelFormat {
        bits_per_pixel: BitsPerPixel::U32,
        depth: 24,
        big_endian: Flag::Yes,
        true_color: Flag::Yes,
        red_max: 255,
        green_max: 255,
        blue_max: 255,
        red_shift: 24,
        green_shift: 16,
        blue_shift: 8,
    }
}

/// The byte that a captured frame's byte `i` becomes in the Tight input
/// format: each pixel's blue, green, red, unused bytes become red, green,
/// blue and a zero.
pub open spec fn tight_byte_of_capture(data: Seq<u8>, i: int) -> u8 {
    if i % 4 == 0 {
        data[i + 2]
    } else if i % 4 == 1 {
        data[i]
    } else if i % 4 == 2 {
        data[i - 2]
    } else {
        0
    }
}

/// One captured pixel (blue, green, red, unused) becomes the Tight input
/// pixel red, green, blue, zero.
proof fn lemma_capture_pixel_for_tight(data: Seq<u8>)
    requires
        data.len() >= 4,
    ensures
        tight_input_format().pixel_bytes(
            PixelFormat::capture_format().spec_convert_u32(
                tight_input_format(),
                PixelFormat::capture_format().read_pixel(data),
            ),
        ) == seq![data[2], data[1], data[0], 0u8],
{
    let (b, g, r, x) = (data[0], data[1], data[2], data[3]);
    let v = PixelFormat::capture_format().read_pixel(data);
    assert(v == (x as u32) * 0x100_0000 + (r as u32) * 0x1_0000 + (g as u32) * 256 + (b as u32));
    assert((v >> 16u8) & 255u32 == r as u32 && (v >> 8u8) & 255u32 == g as u32 && (v >> 0u8) & 255u32
        == b as u32) by (bit_vector)
        requires
            v == (x as u32) * 0x100_0000 + (r as u32) * 0x1_0000 + (g as u32) * 256 + (b as u32),
    ;
    assert(forall|c: u32| c <= 255 ==> #[trigger] ((c as int * 255) / 255) == c) by (nonlinear_arith);
    let c = PixelFormat::capture_format().spec_convert_u32(tight_input_format(), v);
    assert(((r as u32) * 255 / 255) as u32 == r as u32);
    assert(c == ((r as u32) << 24u8) | ((g as u32) << 16u8) | ((b as u32) << 8u8));
    assert((c / 0x100_0000) % 256 == r as u32 && (c / 0x1_0000) % 256 == g as u32 && (c / 256) % 256
        == b as u32 && c % 256 == 0) by (bit_vector)
        requires
            c == ((r as u32) << 24u8) | ((g as u32) << 16u8) | ((b as u32) << 8u8),
    ;
    lemma_pixel_bytes_order(tight_input_format(), c);
}

/// A frame in the capture format is converted for the Tight encoding by
/// rearranging each pixel: its blue, green, red, unused bytes become red,
/// green, blue and a zero, so the colours the client sees are the captured
/// ones.
pub proof fn lemma_capture_frame_for_tight(data: Seq<u8>)
    requires
        data.len() % 4 == 0,
    ensures
        PixelFormat::capture_format().spec_convert_data(tight_input_format(), data) matches Ok(c) && c.len()
            == data.len() && forall|i: int| 0 <= i < data.len() ==> #[trigger] c[i] == tight_byte_of_capture(data, i),
    decreases data.len(),
{
    let src = PixelFormat::capture_format();
    let t = tight_input_format();
    if data.len() >= 4 {
        lemma_capture_frame_for_tight(data.skip(4));
        lemma_capture_pixel_for_tight(data);
        let rest = src.spec_convert_bytes(t, data.skip(4));
        let c = src.spec_convert_bytes(t, data);
        assert(c == seq![data[2], data[1], data[0], 0u8] + rest);
        assert forall|i: int| 0 <= i < data.len() implies #[trigger] c[i] == tight_byte_of_capture(data, i) by {
            if i >= 4 {
                assert(c[i] == rest[i - 4]);
                assert(rest[i - 4] == tight_byte_of_capture(data.skip(4), i - 4));
                assert((i - 4) % 4 == i % 4);
            }
        }
    }
}

/// The frame that a Tight encoder reading the capture format hands to the
/// Tight encoding, for a frame of whole pixels, is that frame with each
/// pixel rearranged into red, green, blue and a zero byte.
pub proof fn lemma_tight_frame_of_capture(e: TightEncoder, data: Seq<u8>)
    requires
        e.src_pixel_format == PixelFormat::capture_format(),
        data.len() % 4 == 0,
    ensures
        e.frames_after(data).len() == e.frames@.len() + 1,
        e.frames_after(data).drop_last() == e.frames@,
        e.frames_after(data).last().len() == data.len(),
        forall|i: int|
            0 <= i < data.len() ==> #[trigger] e.frames_after(data).last()[i] == tight_byte_of_capture(data, i),
{
    lemma_capture_frame_for_tight(data);
    assert(e.frames_after(data).drop_last() =~= e.frames@);
}

/// The format the Tight encoder reads.
fn tight_input_pixel_format() -> (f: PixelFormat)
    ensures
        f == tight_input_format(),
{
    PixelFormat {
        bits_per_pixel: BitsPerPixel::U32,
        depth: 24,
        big_endian: Flag::Yes,
        true_color: Flag::Yes,
        red_max: 255,
        green_max: 255,
        blue_max: 255,
        red_shift: 24,
        green_shift: 16,
        blue_shift: 8,
    }
}

/// Sends pixels with Tight, keeping its zlib streams for the connection.
pub struct TightEncoder {
    pub width: u16,
    pub height: u16,
    pub compressor: rfb_encodings::tight::SimpleTightCompressor,
    pub src_pixel_format: PixelFormat,
    pub client_pixel_format: PixelFormat,
    pub quality: u8,
    pub compression_level: u8,
    /// The frames handed to the Tight encoding so far, in order, each in the
    /// Tight input format.
    pub frames: Ghost<Seq<Seq<u8>>>,
}

impl TightEncoder {
    /// The frames handed to the Tight encoding once `data` is encoded: the
    /// data converted to the Tight input format is added, unless it cannot be
    /// converted.
    pub open spec fn frames_after(self, data: Seq<u8>) -> Seq<Seq<u8>> {
        match self.src_pixel_format.spec_convert_data(tight_input_format(), data) {
            Ok(converted) => self.frames@.push(converted),
            Err(_) => self.frames@,
        }
    }

    /// Tight-encodes `input`, noting its data as the next frame handed over.
    fn encode_frame(&mut self, input: &EncodeInput) -> (parts: Vec<(u16, u16, u16, u16, Vec<u8>)>)
        requires
            tight_call_defined(input.format, input.width, input.height, input.data@.len()),
            input.flags == spec_format_flags(input.format),
        ensures
            final(self).frames@ == old(self).frames@.push(input.data@),
            final(self).src_pixel_format == old(self).src_pixel_format,
            final(self).client_pixel_format == old(self).client_pixel_format,
            final(self).width == old(self).width,
            final(self).height == old(self).height,
            input.width > 0 && input.height > 0 ==> parts@.len() > 0,
            forall|i: int|
                0 <= i < parts@.len() ==> (#[trigger] parts@[i]).0 + parts@[i].2 <= input.width
                    && parts@[i].1 + parts@[i].3 <= input.height,
    {
        let parts = tight_encode(input, self.quality, self.compression_level, &mut self.compressor);
        self.frames = Ghost(self.frames@.push(input.data@));
        parts
    }

    /// `r` is what encoding `data` gives: the data is converted to the Tight
    /// input format, then encoded into Tight updates.
    pub open spec fn encode_result(self, rect: Rect, data: Seq<u8>, r: Result<Vec<UpdateRect>, EncodeError>) -> bool {
        match self.src_pixel_format.spec_convert_data(tight_input_format(), data) {
            Ok(_) => r matches Ok(v) && (self.width > 0 && self.height > 0 ==> v@.len() > 0)
                && forall|i: int|
                0 <= i < v@.len() ==> (#[trigger] v@[i]).encoding_type == EncodingType::Tight
                    && v@[i].rect.x_pos + v@[i].rect.width <= self.width && v@[i].rect.y_pos
                    + v@[i].rect.height <= self.height,
            Err(e) => r == Err::<Vec<UpdateRect>, EncodeError>(EncodeError::Conversion(e)),
        }
    }
}

impl Encoder for TightEncoder {
    open spec fn encode_defined(&self, requested_rect: Rect, data: Seq<u8>) -> bool {
        &&& self.src_pixel_format.copy_conversion_defined(tight_input_format(), data)
        &&& self.src_pixel_format.spec_convert_data(tight_input_format(), data) matches Ok(
            converted,
        ) ==> tight_call_defined(self.client_pixel_format, self.width, self.height, converted.len())
    }

    open spec fn spec_encoding_type(&self) -> EncodingType {
        EncodingType::Tight
    }

    fn encoding_type(&self) -> (e: EncodingType) {
        EncodingType::Tight
    }

    fn can_encode(&self, requested_rect: Rect, data: &[u8]) -> (b: bool) {
        let input_format = tight_input_pixel_format();
        if !self.src_pixel_format.can_convert_copy(&input_format, data) {
            return false;
        }
        if self.src_pixel_format.true_color == Flag::No || input_format.true_color == Flag::No {
            return true;
        }
        if self.src_pixel_format == input_format {
            return tight_call_ok(&self.client_pixel_format, self.width, self.height, data.len() as u128);
        }
        if self.src_pixel_format.bits_per_pixel == BitsPerPixel::Invalid {
            return true;
        }
        let width = self.src_pixel_format.bits_per_pixel.bytes_size();
        if data.len() % width != 0 {
            return true;
        }
        proof {
            lemma_convert_bytes_len(self.src_pixel_format, input_format, data@);
        }
        let converted_len = (data.len() / width) as u128 * 4;
        tight_call_ok(&self.client_pixel_format, self.width, self.height, converted_len)
    }

    /// Converts the frame to the Tight input format, then Tight-encodes it into
    /// as many updates as the encoder chooses.
    fn encode(&mut self, requested_rect: Rect, data: Vec<u8>) -> (r: Result<
        Vec<UpdateRect>,
        EncodeError,
    >)
        ensures
            final(self).src_pixel_format == old(self).src_pixel_format,
            final(self).client_pixel_format == old(self).client_pixel_format,
            final(self).width == old(self).width,
            final(self).height == old(self).height,
            final(self).frames@ == old(self).frames_after(data@),
            old(self).encode_result(requested_rect, data@, r),
    {
        let input_format = tight_input_pixel_format();
        let converted = match self.src_pixel_format.convert_data_to_pixel_format(
            &input_format,
            data.as_slice(),
        ) {
            Ok(v) => v,
            Err(e) => {
                return Err(EncodeError::Conversion(e));
            },
        };
        let input = encode_input(converted, self.width, self.height, self.client_pixel_format);
        let parts = self.encode_frame(&input);
        let updates = tight_updates(parts.as_slice());
        Ok(updates)
    }

    /// Later updates are encoded for `format`.
    fn set_pixel_format(&mut self, format: PixelFormat)
        ensures
            *final(self) == (TightEncoder { client_pixel_format: format, ..*old(self) }),
    {
        self.client_pixel_format = format;
    }
}

/// One of the encoders, as picked for a connection.
pub enum SelectedEncoder {
    Raw(RawEncoder),
    ZRLE(ZRLEEncoder),
    Tight(TightEncoder),
}

impl SelectedEncoder {
    /// The format of the frames the encoder reads.
    pub open spec fn src_format(self) -> PixelFormat {
        match self {
            SelectedEncoder::Raw(e) => e.src_pixel_format,
            SelectedEncoder::ZRLE(e) => e.src_pixel_format,
            SelectedEncoder::Tight(e) => e.src_pixel_format,
        }
    }

    /// `r` is what the selected encoder gives for `data` and `rect`.
    pub open spec fn encode_result(self, rect: Rect, data: Seq<u8>, r: Result<Vec<UpdateRect>, EncodeError>) -> bool {
        match self {
            SelectedEncoder::Raw(e) => e.encode_result(rect, data, r),
            SelectedEncoder::ZRLE(e) => e.encode_result(rect, data, r),
            SelectedEncoder::Tight(e) => e.encode_result(rect, data, r),
        }
    }

    /// The frames handed to the ZRLE or Tight encoding so far (none for raw
    /// updates, whose data is the converted frame itself).
    pub open spec fn frames(self) -> Seq<Seq<u8>> {
        match self {
            SelectedEncoder::Raw(_) => Seq::empty(),
            SelectedEncoder::ZRLE(e) => e.frames@,
            SelectedEncoder::Tight(e) => e.frames@,
        }
    }

    /// The frames handed over once `data` is encoded.
    pub open spec fn frames_after(self, data: Seq<u8>) -> Seq<Seq<u8>> {
        match self {
            SelectedEncoder::Raw(_) => Seq::empty(),
            SelectedEncoder::ZRLE(e) => e.frames_after(data),
            SelectedEncoder::Tight(e) => e.frames_after(data),
        }
    }

    /// The format the client receives.
    pub open spec fn client_format(self) -> PixelFormat {
        match self {
            SelectedEncoder::Raw(e) => e.dest_pixel_format,
            SelectedEncoder::ZRLE(e) => e.client_pixel_format,
            SelectedEncoder::Tight(e) => e.client_pixel_format,
        }
    }
}

impl Encoder for SelectedEncoder {
    open spec fn encode_defined(&self, requested_rect: Rect, data: Seq<u8>) -> bool {
        match self {
            SelectedEncoder::Raw(e) => e.encode_defined(requested_rect, data),
            SelectedEncoder::ZRLE(e) => e.encode_defined(requested_rect, data),
            SelectedEncoder::Tight(e) => e.encode_defined(requested_rect, data),
        }
    }

    open spec fn spec_encoding_type(&self) -> EncodingType {
        match self {
            SelectedEncoder::Raw(_) => EncodingType::Raw,
            SelectedEncoder::ZRLE(_) => EncodingType::ZRLE,
            SelectedEncoder::Tight(_) => EncodingType::Tight,
        }
    }

    fn encoding_type(&self) -> (e: EncodingType) {
        match self {
            SelectedEncoder::Raw(e) => e.encoding_type(),
            SelectedEncoder::ZRLE(e) => e.encoding_type(),
            SelectedEncoder::Tight(e) => e.encoding_type(),
        }
    }

    fn can_encode(&self, requested_rect: Rect, data: &[u8]) -> (b: bool) {
        match self {
            SelectedEncoder::Raw(e) => e.can_encode(requested_rect, data),
            SelectedEncoder::ZRLE(e) => e.can_encode(requested_rect, data),
            SelectedEncoder::Tight(e) => e.can_encode(requested_rect, data),
        }
    }

    /// Encodes with the selected encoder.
    fn encode(&mut self, requested_rect: Rect, data: Vec<u8>) -> (r: Result<
        Vec<UpdateRect>,
        EncodeError,
    >)
        ensures
            final(self).spec_encoding_type() == old(self).spec_encoding_type(),
            final(self).src_format() == old(self).src_format(),
            final(self).client_format() == old(self).client_format(),
            final(self).frames() == old(self).frames_after(data@),
            old(self).encode_result(requested_rect, data@, r),
    {
        match self {
            SelectedEncoder::Raw(e) => e.encode(requested_rect, data),
            SelectedEncoder::ZRLE(e) => e.encode(requested_rect, data),
            SelectedEncoder::Tight(e) => e.encode(requested_rect, data),
        }
    }

    /// Passes the client's format to the selected encoder: the raw encoder
    /// keeps its formats, ZRLE and Tight encode later updates for `format`;
    /// nothing else changes.
    fn set_pixel_format(&mut self, format: PixelFormat)
        ensures
            final(self).spec_encoding_type() == old(self).spec_encoding_type(),
            match *old(self) {
                SelectedEncoder::Raw(e) => *final(self) == SelectedEncoder::Raw(e),
                SelectedEncoder::ZRLE(e) => *final(self) == SelectedEncoder::ZRLE(
                    ZRLEEncoder { client_pixel_format: format, ..e },
                ),
                SelectedEncoder::Tight(e) => *final(self) == SelectedEncoder::Tight(
                    TightEncoder { client_pixel_format: format, ..e },
                ),
            },
    {
        match self {
            SelectedEncoder::Raw(e) => e.set_pixel_format(format),
            SelectedEncoder::ZRLE(e) => e.set_pixel_format(format),
            SelectedEncoder::Tight(e) => e.set_pixel_format(format),
        }
    }
}

/// Starts a zlib stream as ZRLE uses it: `flate2::Compress::new` at the fast
/// level, with a zlib header.  Nothing is claimed of the stream.
#[verifier::external_body]
fn new_zrle_compressor() -> flate2::Compress {
    flate2::Compress::new(flate2::Compression::fast(), true)
}

/// Starts Tight's streams: `rfb_encodings::tight::SimpleTightCompressor::new`.
/// Nothing is claimed of them.
#[verifier::external_body]
fn new_tight_compressor(level: u8) -> rfb_encodings::tight::SimpleTightCompressor {
    rfb_encodings::tight::SimpleTightCompressor::new(level)
}

/// The wire bytes of a format's pixel size, endianness and true-colour flags.
pub open spec fn spec_format_flags(format: PixelFormat) -> (u8, u8, u8) {
    (format.bits_per_pixel.spec_byte(), format.big_endian.spec_byte(), format.true_color.spec_byte())
}

/// The wire bytes of a format's pixel size, endianness and true-colour flags.
fn format_flags(format: &PixelFormat) -> (f: (u8, u8, u8))
    ensures
        f == spec_format_flags(*format),
{
    (format.bits_per_pixel.to_byte(), format.big_endian.to_byte(), format.true_color.to_byte())
}

/// `rfb_encodings::PixelFormat` holding the fields of `format`, with `flags`
/// (its size, endianness and true-colour bytes) for the enumerated ones.
#[verifier::external_body]
fn rfb_pixel_format(format: &PixelFormat, flags: (u8, u8, u8)) -> RfbFormat {
    RfbFormat {
        bits_per_pixel: flags.0,
        depth: format.depth,
        big_endian_flag: flags.1,
        true_colour_flag: flags.2,
        red_max: format.red_max,
        green_max: format.green_max,
        blue_max: format.blue_max,
        red_shift: format.red_shift,
        green_shift: format.green_shift,
        blue_shift: format.blue_shift,
    }
}

/// Pixels and the shape and format they are encoded for, as handed to the
/// ZRLE and Tight encoding calls.
pub struct EncodeInput {
    pub data: Vec<u8>,
    pub width: u16,
    pub height: u16,
    pub format: PixelFormat,
    pub flags: (u8, u8, u8),
}

/// The input of an encoding call: `data`, a `width` x `height` rectangle, and
/// the format with its flag bytes.
pub fn encode_input(data: Vec<u8>, width: u16, height: u16, format: PixelFormat) -> (i: EncodeInput)
    ensures
        i.data@ == data@,
        i.width == width,
        i.height == height,
        i.format == format,
        i.flags == spec_format_flags(format),
{
    let flags = format_flags(&format);
    EncodeInput { data, width, height, format, flags }
}

/// Every colour shift of `format` is below 32.
pub open spec fn shifts_below_32(format: PixelFormat) -> bool {
    format.red_shift < 32 && format.green_shift < 32 && format.blue_shift < 32
}

/// ZRLE encoding of `len` bytes for a `width` x `height` rectangle in `format`
/// runs without a panic: when it gets to encode pixels (a non-empty rectangle
/// and enough data), the pixel size is valid, and a 32-bit true-colour format
/// of depth at most 24 (whose compact pixels are measured by shifting the
/// channel maxima) has shifts below 32.
pub open spec fn zrle_call_defined(format: PixelFormat, width: u16, height: u16, len: nat) -> bool {
    (width * height > 0 && len >= width * height * (format.bits_per_pixel.spec_byte() / 8)) ==> (
    format.bits_per_pixel != BitsPerPixel::Invalid && (format.true_color == Flag::Yes
        && format.bits_per_pixel == BitsPerPixel::U32 && format.depth <= 24 ==> shifts_below_32(
        format,
    )))
}

/// Whether ZRLE encoding of `len` bytes for a `width` x `height` rectangle
/// in `format` is defined.
pub fn zrle_call_ok(format: &PixelFormat, width: u16, height: u16, len: u128) -> (b: bool)
    ensures
        b == zrle_call_defined(*format, width, height, len as nat),
{
    assert(width * height <= 0xffff * 0xffff) by (nonlinear_arith)
        requires
            width <= 0xffff,
            height <= 0xffff,
    ;
    let area = width as u128 * height as u128;
    let per_pixel = (format.bits_per_pixel.to_byte() / 8) as u128;
    assert(area * per_pixel <= 0xffff * 0xffff * 32) by (nonlinear_arith)
        requires
            area <= 0xffff * 0xffff,
            per_pixel <= 32,
    ;
    let needed = area * per_pixel;
    if !(area > 0 && len >= needed) {
        return true;
    }
    format.bits_per_pixel != BitsPerPixel::Invalid && (!(format.true_color == Flag::Yes
        && format.bits_per_pixel == BitsPerPixel::U32 && format.depth <= 24) || (format.red_shift
        < 32 && format.green_shift < 32 && format.blue_shift < 32))
}

/// Tight encoding of `len` bytes as a `width` x `height` frame into `format`
/// runs without a panic: the data holds every pixel, pixels packed into the
/// client's format have shifts below 32, and the frame is small enough for the
/// encoder's 16-bit coordinate arithmetic.
pub open spec fn tight_call_defined(format: PixelFormat, width: u16, height: u16, len: nat) -> bool {
    &&& len >= width * height * 4
    &&& width * height > 0 ==> shifts_below_32(format)
    &&& width <= 63488
    &&& height <= 32767
}

/// Whether Tight encoding of `len` bytes as a `width` x `height` frame into
/// `format` is defined.
pub fn tight_call_ok(format: &PixelFormat, width: u16, height: u16, len: u128) -> (b: bool)
    ensures
        b == tight_call_defined(*format, width, height, len as nat),
{
    assert(width * height <= 0xffff * 0xffff) by (nonlinear_arith)
        requires
            width <= 0xffff,
            height <= 0xffff,
    ;
    let area = width as u128 * height as u128;
    len >= area * 4 && (area == 0 || (format.red_shift < 32 && format.green_shift < 32
        && format.blue_shift < 32)) && width <= 63488 && height <= 32767
}

/// ZRLE-encodes `input` (its data as a `width` x `height` rectangle in its
/// format) with `rfb_encodings::zrle::encode_zrle_persistent`, continuing the
/// stream of `compressor`.  Claimed, as its source shows: data shorter than the
/// rectangle's pixels (bits per pixel / 8 bytes each) is refused, and a success
/// is the compressed length (big-endian `u32`) followed by the compressed bytes.
/// The compressed bytes depend on the stream's history and are not stated; nor
/// is success, which rests on the zlib stream's state.
#[verifier::external_body]
fn zrle_encode(input: &EncodeInput, compressor: &mut flate2::Compress) -> (r: Result<Vec<u8>, EncodeError>)
    requires
        zrle_call_defined(input.format, input.width, input.height, input.data@.len()),
        input.flags == spec_format_flags(input.format),
    ensures
        input.data@.len() < input.width * input.height * (input.format.bits_per_pixel.spec_byte()
            / 8) ==> r is Err,
        r matches Ok(v) ==> v@.len() >= 4 && v@.take(4) == u32_be_bytes((v@.len() - 4) as u32),
        r matches Err(e) ==> e == EncodeError::Compression,
{
    let pf = rfb_pixel_format(&input.format, input.flags);
    let data = input.data.as_slice();
    match rfb_encodings::zrle::encode_zrle_persistent(data, input.width, input.height, &pf, compressor) {
        Ok(v) => Ok(v),
        Err(_) => Err(EncodeError::Compression),
    }
}

/// Tight-encodes `input` (its data as a `width` x `height` frame in the Tight
/// input format, for a client in its format) with
/// `rfb_encodings::tight::encode_tight_rects`, continuing the streams of
/// `compressor`; each part is a sub-rectangle (x, y, width, height) and its
/// encoded bytes.  Claimed, as its source shows: every part lies within the
/// frame, and a non-empty frame gives at least one part.  Which parts, and
/// their bytes, depend on the streams' history and the encoder's choices and
/// are not stated.
#[verifier::external_body]
fn tight_encode(
    input: &EncodeInput,
    quality: u8,
    compression: u8,
    compressor: &mut rfb_encodings::tight::SimpleTightCompressor,
) -> (parts: Vec<(u16, u16, u16, u16, Vec<u8>)>)
    requires
        tight_call_defined(input.format, input.width, input.height, input.data@.len()),
        input.flags == spec_format_flags(input.format),
    ensures
        input.width > 0 && input.height > 0 ==> parts@.len() > 0,
        forall|i: int|
            0 <= i < parts@.len() ==> (#[trigger] parts@[i]).0 + parts@[i].2 <= input.width
                && parts@[i].1 + parts@[i].3 <= input.height,
{
    let pf = rfb_pixel_format(&input.format, input.flags);
    let (data, w, h) = (input.data.as_slice(), input.width, input.height);
    rfb_encodings::tight::encode_tight_rects(data, w, h, quality, compression, &pf, compressor)
        .into_iter().map(|(x, y, w, h, bytes)| (x, y, w, h, bytes.to_vec())).collect()
}

/// The update that a Tight part becomes.
pub open spec fn tight_update_of(part: (u16, u16, u16, u16, Vec<u8>), update: UpdateRect) -> bool {
    &&& update.rect == (Rect { x_pos: part.0, y_pos: part.1, width: part.2, height: part.3 })
    &&& update.encoding_type == EncodingType::Tight
    &&& update.data@ == part.4@
}

/// The Tight updates of `parts`, one per part, in order: each covers the
/// part's rectangle and carries its bytes.
pub fn tight_updates(parts: &[(u16, u16, u16, u16, Vec<u8>)]) -> (updates: Vec<UpdateRect>)
    ensures
        updates@.len() == parts@.len(),
        forall|k: int| 0 <= k < parts@.len() ==> tight_update_of(parts@[k], #[trigger] updates@[k]),
{
    let mut updates: Vec<UpdateRect> = Vec::new();
    let mut i: usize = 0;
    while i < parts.len()
        invariant
            i <= parts@.len(),
            updates@.len() == i,
            forall|k: int| 0 <= k < i ==> tight_update_of(parts@[k], #[trigger] updates@[k]),
        decreases parts.len() - i,
    {
        let part = &parts[i];
        let mut bytes: Vec<u8> = Vec::new();
        crate::wire::push_bytes(&mut bytes, part.4.as_slice());
        updates.push(
            UpdateRect {
                rect: Rect { x_pos: part.0, y_pos: part.1, width: part.2, height: part.3 },
                encoding_type: EncodingType::Tight,
                data: bytes,
            },
        );
        i = i + 1;
    }
    updates
}

} // verus!
