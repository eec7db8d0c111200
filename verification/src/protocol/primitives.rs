//! Small values that travel on the wire: flags, rectangles, positions, colours.
use vstd::prelude::*;
use crate::wire::{
    lemma_u16_be_roundtrip, push_u16_be, read_u16_be, u16_be_bytes, u16_from_be,
};

verus! {

/// A boolean as the protocol sends it: one byte, zero meaning "no".
#[derive(Debug, Clone, Copy, PartialEq, Eq, Structural)]
pub enum Flag {
    No,
    Yes,
}

impl Flag {
    /// The flag a received byte stands for: zero is `No`, anything else `Yes`.
    pub open spec fn spec_from_byte(b: u8) -> Flag {
        if b == 0 { Flag::No } else { Flag::Yes }
    }

    /// The byte sent for the flag.
    pub open spec fn spec_byte(self) -> u8 {
        match self {
            Flag::No => 0,
            Flag::Yes => 1,
        }
    }

    /// Reads a flag from its byte.
    pub fn from_byte(b: u8) -> (f: Flag)
        ensures
            f == Flag::spec_from_byte(b),
    {
        if b == 0 { Flag::No } else { Flag::Yes }
    }

    /// The byte sent for the flag.
    pub fn to_byte(&self) -> (b: u8)
        ensures
            b == self.spec_byte(),
    {
        match self {
            Flag::No => 0,
            Flag::Yes => 1,
        }
    }
}

/// Reading back the byte of a flag gives the flag.
pub proof fn lemma_flag_roundtrip(f: Flag)
    ensures
        Flag::spec_from_byte(f.spec_byte()) == f,
{
}

/// A rectangle of the framebuffer.
#[derive(Debug, Clone, Copy, PartialEq, Eq, Structural)]
pub struct Rect {
    pub x_pos: u16,
    pub y_pos: u16,
    pub width: u16,
    pub height: u16,
}

impl Rect {
    /// The 8 bytes of the rectangle on the wire: x, y, width, height, each big-endian.
    pub open spec fn wire_bytes(self) -> Seq<u8> {
        u16_be_bytes(self.x_pos) + u16_be_bytes(self.y_pos) + u16_be_bytes(self.width)
            + u16_be_bytes(self.height)
    }

    /// The rectangle whose wire form starts `s`.
    pub open spec fn from_wire(s: Seq<u8>) -> Rect {
        Rect {
            x_pos: u16_from_be(s[0], s[1]),
            y_pos: u16_from_be(s[2], s[3]),
            width: u16_from_be(s[4], s[5]),
            height: u16_from_be(s[6], s[7]),
        }
    }

    /// Appends the wire form of the rectangle.
    pub fn write_to(&self, out: &mut Vec<u8>)
        ensures
            final(out)@ == old(out)@ + self.wire_bytes(),
    {
        push_u16_be(out, self.x_pos);
        push_u16_be(out, self.y_pos);
        push_u16_be(out, self.width);
        push_u16_be(out, self.height);
        assert(final(out)@ =~= old(out)@ + self.wire_bytes());
    }

    /// Reads a rectangle at `pos`.
    pub fn read_from(data: &[u8], pos: usize) -> (r: Rect)
        requires
            pos + 8 <= data.len(),
        ensures
            r == Rect::from_wire(data@.skip(pos as int)),
    {
        Rect {
            x_pos: read_u16_be(data, pos),
            y_pos: read_u16_be(data, pos + 2),
            width: read_u16_be(data, pos + 4),
            height: read_u16_be(data, pos + 6),
        }
    }
}

/// Reading back the wire form of a rectangle gives the rectangle.
pub proof fn lemma_rect_roundtrip(r: Rect)
    ensures
        r.wire_bytes().len() == 8,
        Rect::from_wire(r.wire_bytes()) == r,
{
    lemma_u16_be_roundtrip(r.x_pos);
    lemma_u16_be_roundtrip(r.y_pos);
    lemma_u16_be_roundtrip(r.width);
    lemma_u16_be_roundtrip(r.height);
}

/// A pointer position.
#[derive(Debug, Clone, Copy, PartialEq, Eq, Structural)]
pub struct Pos {
    pub x_pos: u16,
    pub y_pos: u16,
}

impl Pos {
    /// The position whose wire form (x then y, big-endian) starts `s`.
    pub open spec fn from_wire(s: Seq<u8>) -> Pos {
        Pos { x_pos: u16_from_be(s[0], s[1]), y_pos: u16_from_be(s[2], s[3]) }
    }

    /// Reads a position at `pos`.
    pub fn read_from(data: &[u8], pos: usize) -> (p: Pos)
        requires
            pos + 4 <= data.len(),
        ensures
            p == Pos::from_wire(data@.skip(pos as int)),
    {
        Pos { x_pos: read_u16_be(data, pos), y_pos: read_u16_be(data, pos + 2) }
    }

    /// The origin, where the pointer starts.
    pub fn origin() -> (p: Pos)
        ensures
            p.x_pos == 0 && p.y_pos == 0,
    {
        Pos { x_pos: 0, y_pos: 0 }
    }
}

/// An entry of the colour map.
#[derive(Debug, Clone, Copy, PartialEq, Eq, Structural)]
pub struct ColorMapEntry {
    pub red: u16,
    pub green: u16,
    pub blue: u16,
}

impl ColorMapEntry {
    /// The 6 bytes of the entry: red, green, blue, each big-endian.
    pub open spec fn wire_bytes(self) -> Seq<u8> {
        u16_be_bytes(self.red) + u16_be_bytes(self.green) + u16_be_bytes(self.blue)
    }

    /// Appends the wire form of the entry.
    pub fn write_to(&self, out: &mut Vec<u8>)
        ensures
            final(out)@ == old(out)@ + self.wire_bytes(),
    {
        push_u16_be(out, self.red);
        push_u16_be(out, self.green);
        push_u16_be(out, self.blue);
        assert(final(out)@ =~= old(out)@ + self.wire_bytes());
    }
}

/// A colour with 8 bits per channel.
#[derive(Debug, Clone, Copy, PartialEq, Eq, Structural)]
pub struct Color8888 {
    pub r: u8,
    pub g: u8,
    pub b: u8,
}

impl Color8888 {
    /// The 4 bytes of the colour: a zero byte, then red, green, blue.
    pub open spec fn wire_bytes(self) -> Seq<u8> {
        seq![0u8, self.r, self.g, self.b]
    }

    /// Appends the wire form of the colour.
    pub fn write_to(&self, out: &mut Vec<u8>)
        ensures
            final(out)@ == old(out)@ + self.wire_bytes(),
    {
        out.push(0);
        out.push(self.r);
        out.push(self.g);
        out.push(self.b);
        assert(final(out)@ =~= old(out)@ + self.wire_bytes());
    }
}

} // verus!
