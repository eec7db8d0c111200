//! Pixel formats and the conversion of pixel data between them.
use vstd::prelude::*;
use crate::protocol::primitives::Flag;
use crate::wire::{
    lemma_u16_be_roundtrip, push_u16_be, push_u16_le, push_u32_be, push_u32_le, read_u16_be,
    read_u16_le, read_u32_be, read_u32_le, u16_be_bytes, u16_from_be, u16_from_le, u16_le_bytes,
    u32_be_bytes, u32_from_be, u32_from_le, u32_le_bytes,
};

verus! {

/// The number of bits a pixel takes.
#[derive(Debug, Clone, Copy, PartialEq, Eq, Structural)]
pub enum BitsPerPixel {
    U8,
    U16,
    U32,
    Invalid,
}

impl BitsPerPixel {
    /// The byte sent for the size (8, 16, 32, and 255 for `Invalid`); sizes are
    /// ordered by it.
    pub open spec fn spec_byte(self) -> u8 {
        match self {
            BitsPerPixel::U8 => 8,
            BitsPerPixel::U16 => 16,
            BitsPerPixel::U32 => 32,
            BitsPerPixel::Invalid => 255,
        }
    }

    /// The size a received byte stands for; unknown bytes are `Invalid`.
    pub open spec fn spec_from_byte(b: u8) -> BitsPerPixel {
        if b == 8 {
            BitsPerPixel::U8
        } else if b == 16 {
            BitsPerPixel::U16
        } else if b == 32 {
            BitsPerPixel::U32
        } else {
            BitsPerPixel::Invalid
        }
    }

    /// The number of bytes of a pixel, 0 for `Invalid`.
    pub open spec fn width(self) -> nat {
        match self {
            BitsPerPixel::U8 => 1,
            BitsPerPixel::U16 => 2,
            BitsPerPixel::U32 => 4,
            BitsPerPixel::Invalid => 0,
        }
    }

    /// Reads a size from its byte.
    pub fn from_byte(b: u8) -> (r: BitsPerPixel)
        ensures
            r == BitsPerPixel::spec_from_byte(b),
    {
        if b == 8 {
            BitsPerPixel::U8
        } else if b == 16 {
            BitsPerPixel::U16
        } else if b == 32 {
            BitsPerPixel::U32
        } else {
            BitsPerPixel::Invalid
        }
    }

    /// The byte sent for the size.
    pub fn to_byte(&self) -> (b: u8)
        ensures
            b == self.spec_byte(),
    {
        match self {
            BitsPerPixel::U8 => 8,
            BitsPerPixel::U16 => 16,
            BitsPerPixel::U32 => 32,
            BitsPerPixel::Invalid => 255,
        }
    }

    /// Whether `self` is a smaller size than `other`, in the order of their bytes.
    pub fn is_narrower_than(&self, other: &BitsPerPixel) -> (r: bool)
        ensures
            r == (self.spec_byte() < other.spec_byte()),
    {
        self.to_byte() < other.to_byte()
    }

    /// The number of bytes of a pixel; there is none for `Invalid`.
    pub fn bytes_size(&self) -> (n: usize)
        requires
            *self != BitsPerPixel::Invalid,
        ensures
            n == self.width(),
            n == 1 || n == 2 || n == 4,
    {
        match self {
            BitsPerPixel::U8 => 1,
            BitsPerPixel::U16 => 2,
            BitsPerPixel::U32 => 4,
            BitsPerPixel::Invalid => 0,
        }
    }
}

/// Why pixel data could not be converted.
#[derive(Debug, Clone, Copy, PartialEq, Eq, Structural)]
pub enum PixelFormatError {
    /// One of the formats uses a colour map, which is not supported.
    PaletteNotImplemented,
    /// The source format has an invalid pixel size.
    InvalidSourceFormat,
    /// The data does not hold a whole number of pixels.
    IncompletePixel,
    /// The target pixels are wider than the source ones, so the conversion
    /// cannot be done in place.
    TargetWider,
}

/// One channel of a colour, read at `shift` with range `src_max` and rescaled to
/// range `dst_max` (rounding down).
pub open spec fn channel(value: u32, shift: u8, src_max: u16, dst_max: u16) -> u32 {
    ((((value >> shift) & (src_max as u32)) as int * dst_max as int) / src_max as int) as u32
}

/// How pixels are laid out in memory.
#[derive(Debug, Clone, Copy, PartialEq, Eq, Structural)]
pub struct PixelFormat {
    pub bits_per_pixel: BitsPerPixel,
    pub depth: u8,
    pub big_endian: Flag,
    pub true_color: Flag,
    pub red_max: u16,
    pub green_max: u16,
    pub blue_max: u16,
    pub red_shift: u8,
    pub green_shift: u8,
    pub blue_shift: u8,
}

impl PixelFormat {
    /// The colour `value` (in `self`) expressed in `target`: each channel is
    /// extracted, rescaled to the target's range and shifted into place.
    pub open spec fn spec_convert_u32(self, target: PixelFormat, value: u32) -> u32 {
        (channel(value, self.red_shift, self.red_max, target.red_max) << target.red_shift) | (
        channel(value, self.green_shift, self.green_max, target.green_max) << target.green_shift)
            | (channel(value, self.blue_shift, self.blue_max, target.blue_max)
            << target.blue_shift)
    }

    /// The arithmetic of a colour conversion from `self` to `target` is defined:
    /// every shift is below 32 and no source range is empty.
    pub open spec fn channels_convertible(self, target: PixelFormat) -> bool {
        &&& self.red_shift < 32
        &&& self.green_shift < 32
        &&& self.blue_shift < 32
        &&& target.red_shift < 32
        &&& target.green_shift < 32
        &&& target.blue_shift < 32
        &&& self.red_max > 0
        &&& self.green_max > 0
        &&& self.blue_max > 0
    }

    /// The colour of the pixel whose bytes start `p`.
    pub open spec fn read_pixel(self, p: Seq<u8>) -> u32 {
        match self.bits_per_pixel {
            BitsPerPixel::U8 => p[0] as u32,
            BitsPerPixel::U16 => if self.big_endian == Flag::Yes {
                u16_from_be(p[0], p[1]) as u32
            } else {
                u16_from_le(p[0], p[1]) as u32
            },
            BitsPerPixel::U32 => if self.big_endian == Flag::Yes {
                u32_from_be(p[0], p[1], p[2], p[3])
            } else {
                u32_from_le(p[0], p[1], p[2], p[3])
            },
            BitsPerPixel::Invalid => 0,
        }
    }

    /// The bytes of a pixel of colour `value` (truncated to the pixel size).
    pub open spec fn pixel_bytes(self, value: u32) -> Seq<u8> {
        match self.bits_per_pixel {
            BitsPerPixel::U8 => seq![value as u8],
            BitsPerPixel::U16 => if self.big_endian == Flag::Yes {
                u16_be_bytes(value as u16)
            } else {
                u16_le_bytes(value as u16)
            },
            BitsPerPixel::U32 => if self.big_endian == Flag::Yes {
                u32_be_bytes(value)
            } else {
                u32_le_bytes(value)
            },
            BitsPerPixel::Invalid => seq![],
        }
    }

    /// The pixels of `data`, one after another, converted to `target`; a trailing
    /// partial pixel is dropped.
    pub open spec fn spec_convert_bytes(self, target: PixelFormat, data: Seq<u8>) -> Seq<u8>
        decreases data.len(),
    {
        let n = self.bits_per_pixel.width();
        if n == 0 || data.len() < n {
            seq![]
        } else {
            target.pixel_bytes(self.spec_convert_u32(target, self.read_pixel(data)))
                + self.spec_convert_bytes(target, data.skip(n as int))
        }
    }

    /// The result of converting `data` from `self` to `target` into a new buffer.
    pub open spec fn spec_convert_data(self, target: PixelFormat, data: Seq<u8>) -> Result<
        Seq<u8>,
        PixelFormatError,
    > {
        if self.true_color == Flag::No || target.true_color == Flag::No {
            Err(PixelFormatError::PaletteNotImplemented)
        } else if self == target {
            Ok(data)
        } else if self.bits_per_pixel == BitsPerPixel::Invalid {
            Err(PixelFormatError::InvalidSourceFormat)
        } else if data.len() % self.bits_per_pixel.width() != 0 {
            Err(PixelFormatError::IncompletePixel)
        } else {
            Ok(self.spec_convert_bytes(target, data))
        }
    }

    /// A conversion of `data` into a new buffer gets to convert pixels only where
    /// they can be converted (else the pixel loop would fail).
    pub open spec fn copy_conversion_defined(self, target: PixelFormat, data: Seq<u8>) -> bool {
        (self.true_color == Flag::Yes && target.true_color == Flag::Yes && self != target
            && self.bits_per_pixel != BitsPerPixel::Invalid && data.len()
            % self.bits_per_pixel.width() == 0 && data.len() > 0) ==> (target.bits_per_pixel
            != BitsPerPixel::Invalid && self.channels_convertible(target))
    }

    /// The result of converting `data` from `self` to `target` in place.
    pub open spec fn spec_convert_in_place(self, target: PixelFormat, data: Seq<u8>) -> Result<
        Seq<u8>,
        PixelFormatError,
    > {
        if self.true_color == Flag::No || target.true_color == Flag::No {
            Err(PixelFormatError::PaletteNotImplemented)
        } else if self == target {
            Ok(data)
        } else if self.bits_per_pixel.spec_byte() < target.bits_per_pixel.spec_byte() {
            Err(PixelFormatError::TargetWider)
        } else {
            Ok(self.spec_convert_bytes(target, data))
        }
    }

    /// A conversion in place gets to the pixel loop only with a valid source
    /// size, whole pixels, and convertible channels.
    pub open spec fn in_place_conversion_defined(self, target: PixelFormat, data: Seq<u8>) -> bool {
        (self.true_color == Flag::Yes && target.true_color == Flag::Yes && self != target
            && self.bits_per_pixel.spec_byte() >= target.bits_per_pixel.spec_byte()) ==> (
        self.bits_per_pixel != BitsPerPixel::Invalid && data.len() % self.bits_per_pixel.width()
            == 0 && (data.len() > 0 ==> self.channels_convertible(target)))
    }

    /// The format of captured frames: 32-bit little-endian true colour, 8 bits
    /// per channel, red at bit 16, green at bit 8, blue at bit 0.
    pub open spec fn capture_format() -> PixelFormat {
        PixelFormat {
            bits_per_pixel: BitsPerPixel::U32,
            depth: 24,
            big_endian: Flag::No,
            true_color: Flag::Yes,
            red_max: 255,
            green_max: 255,
            blue_max: 255,
            red_shift: 16,
            green_shift: 8,
            blue_shift: 0,
        }
    }

    /// The 16 bytes of the format on the wire: size, depth, endianness and
    /// true-colour flags, the three maxima (big-endian), the three shifts, and 3
    /// bytes of padding.
    pub open spec fn wire_bytes(self) -> Seq<u8> {
        seq![
            self.bits_per_pixel.spec_byte(),
            self.depth,
            self.big_endian.spec_byte(),
            self.true_color.spec_byte(),
        ] + u16_be_bytes(self.red_max) + u16_be_bytes(self.green_max) + u16_be_bytes(
            self.blue_max,
        ) + seq![self.red_shift, self.green_shift, self.blue_shift, 0u8, 0u8, 0u8]
    }

    /// The format whose wire form starts `s`.
    pub open spec fn from_wire(s: Seq<u8>) -> PixelFormat {
        PixelFormat {
            bits_per_pixel: BitsPerPixel::spec_from_byte(s[0]),
            depth: s[1],
            big_endian: Flag::spec_from_byte(s[2]),
            true_color: Flag::spec_from_byte(s[3]),
            red_max: u16_from_be(s[4], s[5]),
            green_max: u16_from_be(s[6], s[7]),
            blue_max: u16_from_be(s[8], s[9]),
            red_shift: s[10],
            green_shift: s[11],
            blue_shift: s[12],
        }
    }

    /// Appends the wire form of the format.
    pub fn write_to(&self, out: &mut Vec<u8>)
        ensures
            final(out)@ == old(out)@ + self.wire_bytes(),
    {
        out.push(self.bits_per_pixel.to_byte());
        out.push(self.depth);
        out.push(self.big_endian.to_byte());
        out.push(self.true_color.to_byte());
        push_u16_be(out, self.red_max);
        push_u16_be(out, self.green_max);
        push_u16_be(out, self.blue_max);
        out.push(self.red_shift);
        out.push(self.green_shift);
        out.push(self.blue_shift);
        out.push(0);
        out.push(0);
        out.push(0);
        assert(final(out)@ =~= old(out)@ + self.wire_bytes());
    }

    /// Reads a format at `pos` (the padding is skipped, whatever it holds).
    pub fn read_from(data: &[u8], pos: usize) -> (f: PixelFormat)
        requires
            pos + 16 <= data.len(),
        ensures
            f == PixelFormat::from_wire(data@.skip(pos as int)),
    {
        PixelFormat {
            bits_per_pixel: BitsPerPixel::from_byte(data[pos]),
            depth: data[pos + 1],
            big_endian: Flag::from_byte(data[pos + 2]),
            true_color: Flag::from_byte(data[pos + 3]),
            red_max: read_u16_be(data, pos + 4),
            green_max: read_u16_be(data, pos + 6),
            blue_max: read_u16_be(data, pos + 8),
            red_shift: data[pos + 10],
            green_shift: data[pos + 11],
            blue_shift: data[pos + 12],
        }
    }

    /// Converts `data` from `self` to `target` into a new buffer.
    pub fn convert_data_to_pixel_format(&self, target: &PixelFormat, data: &[u8]) -> (r: Result<
        Vec<u8>,
        PixelFormatError,
    >)
        requires
            self.copy_conversion_defined(*target, data@),
        ensures
            converted_view(r) == self.spec_convert_data(*target, data@),
    {
        if self.true_color == Flag::No || target.true_color == Flag::No {
            return Err(PixelFormatError::PaletteNotImplemented);
        }
        if *self == *target {
            let mut copy = Vec::new();
            crate::wire::push_bytes(&mut copy, data);
            assert(copy@ =~= data@);
            return Ok(copy);
        }
        let width: usize = match self.bits_per_pixel {
            BitsPerPixel::Invalid => {
                return Err(PixelFormatError::InvalidSourceFormat);
            },
            _ => self.bits_per_pixel.bytes_size(),
        };
        if data.len() % width != 0 {
            return Err(PixelFormatError::IncompletePixel);
        }
        let mut out: Vec<u8> = Vec::new();
        let mut pos: usize = 0;
        assert(data@.skip(0) =~= data@);
        while pos < data.len()
            invariant
                width == self.bits_per_pixel.width(),
                width == 1 || width == 2 || width == 4,
                self.bits_per_pixel != BitsPerPixel::Invalid,
                pos <= data.len(),
                (data.len() - pos) % (width as int) == 0,
                data.len() > 0 ==> target.bits_per_pixel != BitsPerPixel::Invalid
                    && self.channels_convertible(*target),
                self.spec_convert_bytes(*target, data@) == out@ + self.spec_convert_bytes(
                    *target,
                    data@.skip(pos as int),
                ),
            decreases data.len() - pos,
        {
            proof {
                lemma_whole_pixel_left(data.len() as int, pos as int, width as int);
                lemma_convert_bytes_step(*self, *target, data@, pos as int);
            }
            let value = self.read_pixel_at(data, pos);
            let converted = self.convert_u32(target, value);
            let ghost before = out@;
            target.write_pixel(&mut out, converted);
            pos = pos + width;
            assert(self.spec_convert_bytes(*target, data@) == out@ + self.spec_convert_bytes(
                *target,
                data@.skip(pos as int),
            )) by {
                assert(before + target.pixel_bytes(converted) + self.spec_convert_bytes(
                    *target,
                    data@.skip(pos as int),
                ) =~= before + (target.pixel_bytes(converted) + self.spec_convert_bytes(
                    *target,
                    data@.skip(pos as int),
                )));
            }
        }
        assert(self.spec_convert_bytes(*target, data@.skip(pos as int)) =~= seq![]);
        assert(out@ =~= self.spec_convert_bytes(*target, data@));
        Ok(out)
    }

    /// Converts `data` from `self` to `target`, giving the data itself when the
    /// formats are equal and a new buffer otherwise.
    pub fn convert_data(&self, target: &PixelFormat, data: Vec<u8>) -> (r: Result<
        Vec<u8>,
        PixelFormatError,
    >)
        requires
            self.copy_conversion_defined(*target, data@),
        ensures
            converted_view(r) == self.spec_convert_data(*target, data@),
    {
        if self.true_color == Flag::Yes && target.true_color == Flag::Yes && *self == *target {
            return Ok(data);
        }
        self.convert_data_to_pixel_format(target, data.as_slice())
    }

    /// Converts `data` from `self` to `target` in place; the target pixels must not
    /// be wider than the source ones.  On error `data` is left unchanged.
    pub fn convert_data_in_place(&self, target: &PixelFormat, data: &mut Vec<u8>) -> (r: Result<
        (),
        PixelFormatError,
    >)
        requires
            self.in_place_conversion_defined(*target, old(data)@),
        ensures
            match r {
                Ok(()) => self.spec_convert_in_place(*target, old(data)@) == Ok::<
                    Seq<u8>,
                    PixelFormatError,
                >(final(data)@),
                Err(e) => self.spec_convert_in_place(*target, old(data)@) == Err::<
                    Seq<u8>,
                    PixelFormatError,
                >(e) && final(data)@ == old(data)@,
            },
    {
        if self.true_color == Flag::No || target.true_color == Flag::No {
            return Err(PixelFormatError::PaletteNotImplemented);
        }
        if *self == *target {
            return Ok(());
        }
        if self.bits_per_pixel.is_narrower_than(&target.bits_per_pixel) {
            return Err(PixelFormatError::TargetWider);
        }
        let step = self.bits_per_pixel.bytes_size();
        let dest_step = target.bits_per_pixel.bytes_size();
        let ghost orig = data@;
        let len = data.len();
        let mut i: usize = 0;
        let mut j: usize = 0;
        assert(orig.skip(0) =~= orig);
        assert(data@.take(0) =~= seq![]);
        while i < len
            invariant
                len == orig.len(),
                data@.len() == len,
                step == self.bits_per_pixel.width(),
                dest_step == target.bits_per_pixel.width(),
                step == 1 || step == 2 || step == 4,
                dest_step == 1 || dest_step == 2 || dest_step == 4,
                dest_step <= step,
                self.bits_per_pixel != BitsPerPixel::Invalid,
                target.bits_per_pixel != BitsPerPixel::Invalid,
                len > 0 ==> self.channels_convertible(*target),
                j <= i <= len,
                (len - i) % (step as int) == 0,
                data@.skip(i as int) == orig.skip(i as int),
                self.spec_convert_bytes(*target, orig) == data@.take(j as int)
                    + self.spec_convert_bytes(*target, orig.skip(i as int)),
            decreases len - i,
        {
            proof {
                lemma_whole_pixel_left(len as int, i as int, step as int);
                lemma_convert_bytes_step(*self, *target, orig, i as int);
            }
            let value = self.read_pixel_at(data.as_slice(), i);
            assert(value == self.read_pixel(orig.skip(i as int)));
            let converted = self.convert_u32(target, value);
            let ghost before = data@;
            target.write_pixel_at(data, j, converted);
            proof {
                lemma_pixel_bytes_len(*target, converted);
                assert(data@.take(j + dest_step) =~= before.take(j as int) + target.pixel_bytes(
                    converted,
                ));
                assert(data@.skip(i + step) =~= orig.skip(i + step)) by {
                    assert forall|k: int| 0 <= k < data@.skip(i + step).len() implies #[trigger] data@.skip(
                        i + step,
                    )[k] == orig.skip(i + step)[k] by {
                        assert(before.skip(i as int)[k + step] == orig.skip(i as int)[k + step]);
                    }
                }
            }
            j = j + dest_step;
            i = i + step;
            assert(self.spec_convert_bytes(*target, orig) == data@.take(j as int)
                + self.spec_convert_bytes(*target, orig.skip(i as int))) by {
                assert(before.take((j - dest_step) as int) + target.pixel_bytes(converted)
                    + self.spec_convert_bytes(*target, orig.skip(i as int)) =~= before.take(
                    (j - dest_step) as int,
                ) + (target.pixel_bytes(converted) + self.spec_convert_bytes(
                    *target,
                    orig.skip(i as int),
                )));
            }
        }
        assert(self.spec_convert_bytes(*target, orig.skip(i as int)) =~= seq![]);
        data.truncate(j);
        assert(data@ =~= self.spec_convert_bytes(*target, orig));
        Ok(())
    }

    /// Overwrites the pixel at `pos` with one of colour `value`.
    fn write_pixel_at(&self, data: &mut Vec<u8>, pos: usize, value: u32)
        requires
            self.bits_per_pixel != BitsPerPixel::Invalid,
            pos + self.bits_per_pixel.width() <= old(data)@.len(),
        ensures
            final(data)@ == old(data)@.take(pos as int) + self.pixel_bytes(value) + old(
                data,
            )@.skip(pos + self.bits_per_pixel.width()),
    {
        let mut bytes: Vec<u8> = Vec::new();
        self.write_pixel(&mut bytes, value);
        proof {
            lemma_pixel_bytes_len(*self, value);
        }
        let ghost start = data@;
        let mut k: usize = 0;
        while k < bytes.len()
            invariant
                bytes@ == self.pixel_bytes(value),
                bytes@.len() == self.bits_per_pixel.width(),
                pos + bytes@.len() <= start.len(),
                start.len() == data.len(),
                k <= bytes@.len(),
                data@.len() == start.len(),
                forall|idx: int|
                    0 <= idx < start.len() ==> #[trigger] data@[idx] == if pos <= idx < pos + k {
                        bytes@[idx - pos]
                    } else {
                        start[idx]
                    },
            decreases bytes.len() - k,
        {
            data.set(pos + k, bytes[k]);
            k = k + 1;
        }
        assert(data@ =~= start.take(pos as int) + self.pixel_bytes(value) + start.skip(
            pos + self.bits_per_pixel.width(),
        ));
    }

    /// The colour `value` of `self` expressed in `target`.
    pub fn convert_u32(&self, target: &PixelFormat, value: u32) -> (r: u32)
        requires
            self.channels_convertible(*target),
        ensures
            r == self.spec_convert_u32(*target, value),
    {
        let red = scale_channel(value, self.red_shift, self.red_max, target.red_max);
        let green = scale_channel(value, self.green_shift, self.green_max, target.green_max);
        let blue = scale_channel(value, self.blue_shift, self.blue_max, target.blue_max);
        (red << target.red_shift) | (green << target.green_shift) | (blue << target.blue_shift)
    }

    /// Reads the colour of the pixel at `pos`.
    fn read_pixel_at(&self, data: &[u8], pos: usize) -> (v: u32)
        requires
            self.bits_per_pixel != BitsPerPixel::Invalid,
            pos + self.bits_per_pixel.width() <= data.len(),
        ensures
            v == self.read_pixel(data@.skip(pos as int)),
    {
        match self.bits_per_pixel {
            BitsPerPixel::U8 => data[pos] as u32,
            BitsPerPixel::U16 => match self.big_endian {
                Flag::No => read_u16_le(data, pos) as u32,
                Flag::Yes => read_u16_be(data, pos) as u32,
            },
            BitsPerPixel::U32 => match self.big_endian {
                Flag::No => read_u32_le(data, pos),
                Flag::Yes => read_u32_be(data, pos),
            },
            BitsPerPixel::Invalid => 0,
        }
    }

    /// Appends the bytes of a pixel of colour `value`.
    fn write_pixel(&self, out: &mut Vec<u8>, value: u32)
        requires
            self.bits_per_pixel != BitsPerPixel::Invalid,
        ensures
            final(out)@ == old(out)@ + self.pixel_bytes(value),
    {
        match self.bits_per_pixel {
            BitsPerPixel::U8 => {
                out.push(value as u8);
                assert(final(out)@ =~= old(out)@ + self.pixel_bytes(value));
            },
            BitsPerPixel::U16 => match self.big_endian {
                Flag::No => push_u16_le(out, value as u16),
                Flag::Yes => push_u16_be(out, value as u16),
            },
            BitsPerPixel::U32 => match self.big_endian {
                Flag::No => push_u32_le(out, value),
                Flag::Yes => push_u32_be(out, value),
            },
            BitsPerPixel::Invalid => {},
        }
    }
}

/// A channel of range `max` at `shift` is a bit field: `max` is all ones in
/// its low bits, and the field fits in 32 bits.
pub open spec fn channel_field(max: u16, shift: u8) -> bool {
    &&& shift < 32
    &&& (max as u32) & (((max as u32) + 1) as u32) == 0
    &&& ((max as u32) << shift) >> shift == max as u32
}

/// The channels of `format` are bit fields that do not overlap.
pub open spec fn channels_are_fields(format: PixelFormat) -> bool {
    &&& channel_field(format.red_max, format.red_shift)
    &&& channel_field(format.green_max, format.green_shift)
    &&& channel_field(format.blue_max, format.blue_shift)
    &&& ((format.red_max as u32) << format.red_shift) & ((format.green_max as u32) << format.green_shift) == 0
    &&& ((format.red_max as u32) << format.red_shift) & ((format.blue_max as u32) << format.blue_shift) == 0
    &&& ((format.green_max as u32) << format.green_shift) & ((format.blue_max as u32) << format.blue_shift) == 0
}

/// Rescaling a channel keeps it within the target range, sends the lowest
/// and highest source values to the lowest and highest target values, and
/// never lowers a brighter source value below a darker one.
pub proof fn lemma_channel_rescale(v: u32, w: u32, shift: u8, src_max: u16, dst_max: u16)
    requires
        shift < 32,
        src_max > 0,
    ensures
        channel(v, shift, src_max, dst_max) <= dst_max,
        (v >> shift) & (src_max as u32) == 0 ==> channel(v, shift, src_max, dst_max) == 0,
        (v >> shift) & (src_max as u32) == src_max as u32 ==> channel(v, shift, src_max, dst_max) == dst_max,
        (v >> shift) & (src_max as u32) <= (w >> shift) & (src_max as u32) ==> channel(v, shift, src_max, dst_max)
            <= channel(w, shift, src_max, dst_max),
{
    let a = ((v >> shift) & (src_max as u32)) as int;
    let b = ((w >> shift) & (src_max as u32)) as int;
    let m = src_max as int;
    let d = dst_max as int;
    assert((v >> shift) & (src_max as u32) <= src_max as u32) by (bit_vector);
    assert((w >> shift) & (src_max as u32) <= src_max as u32) by (bit_vector);
    assert(0 <= a * d / m <= d && 0 <= b * d / m <= d) by (nonlinear_arith)
        requires
            0 <= a <= m,
            0 <= b <= m,
            m > 0,
            d >= 0,
    ;
    assert(m * d / m == d) by (nonlinear_arith)
        requires
            m > 0,
            d >= 0,
    ;
    assert(0 * d / m == 0) by (nonlinear_arith)
        requires
            m > 0,
    ;
    assert(a <= b ==> a * d / m <= b * d / m) by (nonlinear_arith)
        requires
            0 <= a,
            m > 0,
            d >= 0,
    ;
    assert(channel(v, shift, src_max, dst_max) == a * d / m);
    assert(channel(w, shift, src_max, dst_max) == b * d / m);
}

/// A value `r` within the bit field `mr` at `sr`, put in place and joined
/// with bits outside the field, reads back from the field as `r`.
proof fn lemma_field_read(r: u32, o: u32, mr: u32, sr: u8)
    requires
        r <= mr,
        sr < 32,
        mr <= 0xffff,
        mr & ((mr + 1) as u32) == 0,
        (mr << sr) >> sr == mr,
        o & (mr << sr) == 0,
    ensures
        (((r << sr) | o) >> sr) & mr == r,
{
    assert(r & mr == r) by (bit_vector)
        requires
            r <= mr,
            mr <= 0xffff,
            mr & ((mr + 1) as u32) == 0,
    ;
    assert((((r << sr) | o) >> sr) & mr == r) by (bit_vector)
        requires
            r & mr == r,
            sr < 32,
            (mr << sr) >> sr == mr,
            o & (mr << sr) == 0,
    ;
}

/// A value within the bit field `m` at `s`, put in place, lies within the
/// field's bits.
proof fn lemma_in_field(g: u32, m: u32, s: u8, other: u32)
    requires
        g <= m,
        s < 32,
        m <= 0xffff,
        m & ((m + 1) as u32) == 0,
        other & (m << s) == 0,
    ensures
        other & (g << s) == 0,
{
    assert(g & m == g) by (bit_vector)
        requires
            g <= m,
            m <= 0xffff,
            m & ((m + 1) as u32) == 0,
    ;
    assert(other & (g << s) == 0) by (bit_vector)
        requires
            g & m == g,
            s < 32,
            other & (m << s) == 0,
    ;
}

/// When the target's channels are separate bit fields, each channel of a
/// converted colour, read back from the target, is the source channel
/// rescaled to the target's range: red stays red, green green, blue blue.
pub proof fn lemma_convert_keeps_channels(src: PixelFormat, target: PixelFormat, value: u32)
    requires
        src.channels_convertible(target),
        channels_are_fields(target),
    ensures
        ({
            let c = src.spec_convert_u32(target, value);
            &&& (c >> target.red_shift) & (target.red_max as u32) == channel(value, src.red_shift, src.red_max, target.red_max)
            &&& (c >> target.green_shift) & (target.green_max as u32) == channel(value, src.green_shift, src.green_max, target.green_max)
            &&& (c >> target.blue_shift) & (target.blue_max as u32) == channel(value, src.blue_shift, src.blue_max, target.blue_max)
        }),
{
    let r = channel(value, src.red_shift, src.red_max, target.red_max);
    let g = channel(value, src.green_shift, src.green_max, target.green_max);
    let b = channel(value, src.blue_shift, src.blue_max, target.blue_max);
    lemma_channel_rescale(value, value, src.red_shift, src.red_max, target.red_max);
    lemma_channel_rescale(value, value, src.green_shift, src.green_max, target.green_max);
    lemma_channel_rescale(value, value, src.blue_shift, src.blue_max, target.blue_max);
    let (mr, mg, mb) = (target.red_max as u32, target.green_max as u32, target.blue_max as u32);
    let (sr, sg, sb) = (target.red_shift, target.green_shift, target.blue_shift);
    let (fr, fg, fb) = (mr << sr, mg << sg, mb << sb);
    assert(fr & fg == 0 && fr & fb == 0 && fg & fb == 0);
    assert(fg & fr == 0 && fb & fr == 0 && fb & fg == 0) by (bit_vector)
        requires
            fr & fg == 0,
            fr & fb == 0,
            fg & fb == 0,
    ;
    lemma_in_field(r, mr, sr, fg);
    lemma_in_field(r, mr, sr, fb);
    lemma_in_field(g, mg, sg, fr);
    lemma_in_field(g, mg, sg, fb);
    lemma_in_field(b, mb, sb, fr);
    lemma_in_field(b, mb, sb, fg);
    let (pr, pg, pb) = (r << sr, g << sg, b << sb);
    let c = (pr | pg) | pb;
    assert(c == (pr | (pg | pb)) && c == (pg | (pr | pb)) && c == (pb | (pr | pg))
        && (pg | pb) & fr == 0 && (pr | pb) & fg == 0 && (pr | pg) & fb == 0) by (bit_vector)
        requires
            c == (pr | pg) | pb,
            fr & pg == 0,
            fr & pb == 0,
            fg & pr == 0,
            fg & pb == 0,
            fb & pr == 0,
            fb & pg == 0,
    ;
    lemma_field_read(r, pg | pb, mr, sr);
    lemma_field_read(g, pr | pb, mg, sg);
    lemma_field_read(b, pr | pg, mb, sb);
}

/// The bytes of a number below 2^32, from the least significant.
proof fn lemma_byte_split(v: int)
    requires
        0 <= v < 0x1_0000_0000,
    ensures
        (v % 0x1_0000) % 256 == v % 256,
        (v % 0x1_0000) / 256 == (v / 256) % 256,
        ((v / 256) % 256) * 256 + v % 256 == v % 0x1_0000,
        v / 0x100_0000 < 256,
        ((v / 0x100_0000) % 256) * 0x100_0000 + ((v / 0x1_0000) % 256) * 0x1_0000 + ((v / 256)
            % 256) * 256 + v % 256 == v,
{
    assert((v % 0x1_0000) % 256 == v % 256) by (nonlinear_arith)
        requires
            0 <= v,
    ;
    assert((v % 0x1_0000) / 256 == (v / 256) % 256) by (nonlinear_arith)
        requires
            0 <= v,
    ;
    assert(((v / 256) % 256) * 256 + v % 256 == v % 0x1_0000) by (nonlinear_arith)
        requires
            0 <= v,
    ;
    assert(v / 0x100_0000 < 256) by (nonlinear_arith)
        requires
            0 <= v < 0x1_0000_0000,
    ;
    assert(((v / 0x100_0000) % 256) * 0x100_0000 + ((v / 0x1_0000) % 256) * 0x1_0000 + ((v / 256)
        % 256) * 256 + v % 256 == v) by (nonlinear_arith)
        requires
            0 <= v < 0x1_0000_0000,
    ;
}

/// The bytes of a pixel of colour `value` hold the colour's low bytes (as
/// many as the pixel size) in the format's byte order: most significant first
/// for a big-endian format, least significant first otherwise.  Reading them
/// back gives the colour, truncated to the pixel size.
pub proof fn lemma_pixel_bytes_order(format: PixelFormat, value: u32)
    ensures
        ({
            let b = format.pixel_bytes(value);
            let b0 = (value % 256) as u8;
            let b1 = ((value / 256) % 256) as u8;
            let b2 = ((value / 0x1_0000) % 256) as u8;
            let b3 = ((value / 0x100_0000) % 256) as u8;
            &&& format.bits_per_pixel == BitsPerPixel::U8 ==> b == seq![b0]
            &&& format.bits_per_pixel == BitsPerPixel::U16 ==> b == (if format.big_endian == Flag::Yes {
                seq![b1, b0]
            } else {
                seq![b0, b1]
            })
            &&& format.bits_per_pixel == BitsPerPixel::U32 ==> b == (if format.big_endian == Flag::Yes {
                seq![b3, b2, b1, b0]
            } else {
                seq![b0, b1, b2, b3]
            })
            &&& format.bits_per_pixel == BitsPerPixel::U8 ==> format.read_pixel(b) == value % 256
            &&& format.bits_per_pixel == BitsPerPixel::U16 ==> format.read_pixel(b) == value % 0x1_0000
            &&& format.bits_per_pixel == BitsPerPixel::U32 ==> format.read_pixel(b) == value
        }),
{
    let b = format.pixel_bytes(value);
    let b0 = (value % 256) as u8;
    let b1 = ((value / 256) % 256) as u8;
    let b2 = ((value / 0x1_0000) % 256) as u8;
    let b3 = ((value / 0x100_0000) % 256) as u8;
    assert((value as u16) as u32 == value % 0x1_0000) by (bit_vector);
    assert((value as u8) as u32 == value % 256) by (bit_vector);
    lemma_byte_split(value as int);
    if format.bits_per_pixel == BitsPerPixel::U16 {
        if format.big_endian == Flag::Yes {
            assert(b =~= seq![b1, b0]);
        } else {
            assert(b =~= seq![b0, b1]);
        }
    } else if format.bits_per_pixel == BitsPerPixel::U32 {
        if format.big_endian == Flag::Yes {
            assert(b =~= seq![b3, b2, b1, b0]);
        } else {
            assert(b =~= seq![b0, b1, b2, b3]);
        }
    } else if format.bits_per_pixel == BitsPerPixel::U8 {
        assert(b =~= seq![b0]);
    }
}

/// Converting in place, wherever that succeeds, gives the bytes that a
/// conversion into a new buffer gives.
pub proof fn lemma_in_place_agrees_with_copy(src: PixelFormat, target: PixelFormat, data: Seq<u8>)
    requires
        src.in_place_conversion_defined(target, data),
        src.spec_convert_in_place(target, data) is Ok,
    ensures
        src.spec_convert_data(target, data) == src.spec_convert_in_place(target, data),
{
}

/// Converting to the same format gives the data back unchanged, whichever way
/// it is done (as long as the format is true colour).
pub proof fn lemma_convert_to_same_format_is_identity(format: PixelFormat, data: Seq<u8>)
    requires
        format.true_color == Flag::Yes,
    ensures
        format.spec_convert_data(format, data) == Ok::<Seq<u8>, PixelFormatError>(data),
        format.spec_convert_in_place(format, data) == Ok::<Seq<u8>, PixelFormatError>(data),
{
}

/// Reading back the wire form of a pixel format gives the pixel format.
pub proof fn lemma_pixel_format_roundtrip(format: PixelFormat)
    ensures
        format.wire_bytes().len() == 16,
        PixelFormat::from_wire(format.wire_bytes()) == format,
{
    lemma_u16_be_roundtrip(format.red_max);
    lemma_u16_be_roundtrip(format.green_max);
    lemma_u16_be_roundtrip(format.blue_max);
    let b = format.wire_bytes();
    assert(b[4] == u16_be_bytes(format.red_max)[0]);
    assert(b[5] == u16_be_bytes(format.red_max)[1]);
    assert(b[6] == u16_be_bytes(format.green_max)[0]);
    assert(b[7] == u16_be_bytes(format.green_max)[1]);
    assert(b[8] == u16_be_bytes(format.blue_max)[0]);
    assert(b[9] == u16_be_bytes(format.blue_max)[1]);
}

impl Default for PixelFormat {
    /// The format the screen capture produces: 32-bit little-endian pixels,
    /// 8 bits per channel, red at bit 16, green at bit 8, blue at bit 0.
    fn default() -> (f: Self)
        ensures
            f == PixelFormat::capture_format(),
    {
        PixelFormat {
            bits_per_pixel: BitsPerPixel::U32,
            depth: 24,
            big_endian: Flag::No,
            true_color: Flag::Yes,
            red_max: 255,
            green_max: 255,
            blue_max: 255,
            red_shift: 16,
            green_shift: 8,
            blue_shift: 0,
        }
    }
}

/// A conversion result with the buffer taken by its contents.
pub open spec fn converted_view(r: Result<Vec<u8>, PixelFormatError>) -> Result<Seq<u8>, PixelFormatError> {
    match r {
        Ok(v) => Ok(v@),
        Err(e) => Err(e),
    }
}

/// Converting the pixels from `pos` on is converting the pixel at `pos`, then
/// the rest.
proof fn lemma_convert_bytes_step(src: PixelFormat, target: PixelFormat, data: Seq<u8>, pos: int)
    requires
        src.bits_per_pixel != BitsPerPixel::Invalid,
        0 <= pos,
        pos + src.bits_per_pixel.width() <= data.len(),
    ensures
        src.spec_convert_bytes(target, data.skip(pos)) == target.pixel_bytes(
            src.spec_convert_u32(target, src.read_pixel(data.skip(pos))),
        ) + src.spec_convert_bytes(target, data.skip(pos + src.bits_per_pixel.width())),
{
    let w = src.bits_per_pixel.width();
    assert(data.skip(pos).skip(w as int) =~= data.skip(pos + w));
}

/// Pixels of a valid size are `width` bytes long.
proof fn lemma_pixel_bytes_len(format: PixelFormat, value: u32)
    requires
        format.bits_per_pixel != BitsPerPixel::Invalid,
    ensures
        format.pixel_bytes(value).len() == format.bits_per_pixel.width(),
{
}

/// Whole pixels remain after `pos` while `pos` is short of the end.
proof fn lemma_whole_pixel_left(len: int, pos: int, w: int)
    requires
        w == 1 || w == 2 || w == 4,
        0 <= pos < len,
        (len - pos) % w == 0,
    ensures
        pos + w <= len,
        (len - (pos + w)) % w == 0,
{
}

/// Extracts one channel of `value` and rescales it from `src_max` to `dst_max`.
fn scale_channel(value: u32, shift: u8, src_max: u16, dst_max: u16) -> (r: u32)
    requires
        shift < 32,
        src_max > 0,
    ensures
        r == channel(value, shift, src_max, dst_max),
{
    let m = src_max as u32;
    let bits = (value >> shift) & m;
    assert((value >> shift) & m <= m) by (bit_vector);
    assert(bits as int * dst_max as int <= 0xffff * 0xffff) by (nonlinear_arith)
        requires
            bits <= 0xffff,
            dst_max <= 0xffff,
    ;
    bits * (dst_max as u32) / m
}

/// Converting whole pixels gives one target pixel per source pixel.
pub proof fn lemma_convert_bytes_len(src: PixelFormat, target: PixelFormat, data: Seq<u8>)
    requires
        src.bits_per_pixel != BitsPerPixel::Invalid,
        target.bits_per_pixel != BitsPerPixel::Invalid,
    ensures
        src.spec_convert_bytes(target, data).len() == (data.len() / src.bits_per_pixel.width())
            * target.bits_per_pixel.width(),
    decreases data.len(),
{
    let n = src.bits_per_pixel.width() as int;
    let t = target.bits_per_pixel.width() as int;
    if data.len() < n {
        let len = data.len() as int;
        assert(len / n == 0) by (nonlinear_arith)
            requires
                0 <= len < n,
        ;
    } else {
        lemma_convert_bytes_len(src, target, data.skip(n));
        lemma_pixel_bytes_len(target, src.spec_convert_u32(target, src.read_pixel(data)));
        let len = data.len() as int;
        assert((len - n) / n * t + t == len / n * t) by (nonlinear_arith)
            requires
                n > 0,
                len >= n,
        {
            assert((len - n) / n == len / n - 1) by {
                vstd::arithmetic::div_mod::lemma_div_minus_one(len, n);
            }
        }
    }
}

impl PixelFormat {
    /// Whether the channel arithmetic of a conversion to `target` is defined.
    pub fn can_convert_channels(&self, target: &PixelFormat) -> (r: bool)
        ensures
            r == self.channels_convertible(*target),
    {
        self.red_shift < 32 && self.green_shift < 32 && self.blue_shift < 32 && target.red_shift
            < 32 && target.green_shift < 32 && target.blue_shift < 32 && self.red_max > 0
            && self.green_max > 0 && self.blue_max > 0
    }

    /// Whether `convert_data_in_place` accepts `data` for `target`.
    pub fn can_convert_in_place(&self, target: &PixelFormat, data: &[u8]) -> (r: bool)
        ensures
            r == self.in_place_conversion_defined(*target, data@),
    {
        if self.true_color == Flag::Yes && target.true_color == Flag::Yes && *self != *target
            && self.bits_per_pixel.to_byte() >= target.bits_per_pixel.to_byte() {
            if self.bits_per_pixel == BitsPerPixel::Invalid {
                return false;
            }
            let width = self.bits_per_pixel.bytes_size();
            data.len() % width == 0 && (data.len() == 0 || self.can_convert_channels(target))
        } else {
            true
        }
    }

    /// Whether `convert_data_to_pixel_format` accepts `data` for `target`.
    pub fn can_convert_copy(&self, target: &PixelFormat, data: &[u8]) -> (r: bool)
        ensures
            r == self.copy_conversion_defined(*target, data@),
    {
        if self.true_color == Flag::Yes && target.true_color == Flag::Yes && *self != *target
            && self.bits_per_pixel != BitsPerPixel::Invalid {
            let width = self.bits_per_pixel.bytes_size();
            if data.len() % width == 0 && data.len() > 0 {
                target.bits_per_pixel != BitsPerPixel::Invalid && self.can_convert_channels(target)
            } else {
                true
            }
        } else {
            true
        }
    }
}

} // verus!
