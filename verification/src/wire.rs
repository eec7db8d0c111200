//! Byte-level encoding of the integers that travel on an RFB connection.
//!
//! The protocol is big-endian ("network order"), while pixel data may be
//! either big- or little-endian.  Every encoder here has a decoder, and the
//! lemmas at the end state that decoding undoes encoding.
use vstd::prelude::*;

verus! {

/// The two bytes of `v`, most significant first.
pub open spec fn u16_be_bytes(v: u16) -> Seq<u8> {
    seq![(v / 256) as u8, (v % 256) as u8]
}

/// The two bytes of `v`, least significant first.
pub open spec fn u16_le_bytes(v: u16) -> Seq<u8> {
    seq![(v % 256) as u8, (v / 256) as u8]
}

/// The four bytes of `v`, most significant first.
pub open spec fn u32_be_bytes(v: u32) -> Seq<u8> {
    seq![
        (v / 0x100_0000) as u8,
        ((v / 0x1_0000) % 256) as u8,
        ((v / 256) % 256) as u8,
        (v % 256) as u8,
    ]
}

/// The four bytes of `v`, least significant first.
pub open spec fn u32_le_bytes(v: u32) -> Seq<u8> {
    seq![
        (v % 256) as u8,
        ((v / 256) % 256) as u8,
        ((v / 0x1_0000) % 256) as u8,
        (v / 0x100_0000) as u8,
    ]
}

/// The eight bytes of `v`, most significant first.
pub open spec fn u64_be_bytes(v: u64) -> Seq<u8> {
    u32_be_bytes((v / 0x1_0000_0000) as u32) + u32_be_bytes((v % 0x1_0000_0000) as u32)
}

/// The big-endian two's complement encoding of `v`.
pub open spec fn i32_be_bytes(v: i32) -> Seq<u8> {
    u32_be_bytes(v as u32)
}

/// The `u16` whose big-endian bytes are `b0 b1`.
pub open spec fn u16_from_be(b0: u8, b1: u8) -> u16 {
    (b0 * 256 + b1) as u16
}

/// The `u16` whose little-endian bytes are `b0 b1`.
pub open spec fn u16_from_le(b0: u8, b1: u8) -> u16 {
    (b1 * 256 + b0) as u16
}

/// The `u32` whose big-endian bytes are `b0 b1 b2 b3`.
pub open spec fn u32_from_be(b0: u8, b1: u8, b2: u8, b3: u8) -> u32 {
    (b0 * 0x100_0000 + b1 * 0x1_0000 + b2 * 256 + b3) as u32
}

/// The `u32` whose little-endian bytes are `b0 b1 b2 b3`.
pub open spec fn u32_from_le(b0: u8, b1: u8, b2: u8, b3: u8) -> u32 {
    u32_from_be(b3, b2, b1, b0)
}

/// The `i32` whose big-endian two's complement bytes are `b0 b1 b2 b3`.
pub open spec fn i32_from_be(b0: u8, b1: u8, b2: u8, b3: u8) -> i32 {
    u32_from_be(b0, b1, b2, b3) as i32
}

/// Appends the big-endian bytes of `v`.
pub fn push_u16_be(out: &mut Vec<u8>, v: u16)
    ensures
        final(out)@ == old(out)@ + u16_be_bytes(v),
{
    out.push((v / 256) as u8);
    out.push((v % 256) as u8);
}

/// Appends the little-endian bytes of `v`.
pub fn push_u16_le(out: &mut Vec<u8>, v: u16)
    ensures
        final(out)@ == old(out)@ + u16_le_bytes(v),
{
    out.push((v % 256) as u8);
    out.push((v / 256) as u8);
}

/// Appends the big-endian bytes of `v`.
pub fn push_u32_be(out: &mut Vec<u8>, v: u32)
    ensures
        final(out)@ == old(out)@ + u32_be_bytes(v),
{
    out.push((v / 0x100_0000) as u8);
    out.push(((v / 0x1_0000) % 256) as u8);
    out.push(((v / 256) % 256) as u8);
    out.push((v % 256) as u8);
}

/// Appends the little-endian bytes of `v`.
pub fn push_u32_le(out: &mut Vec<u8>, v: u32)
    ensures
        final(out)@ == old(out)@ + u32_le_bytes(v),
{
    out.push((v % 256) as u8);
    out.push(((v / 256) % 256) as u8);
    out.push(((v / 0x1_0000) % 256) as u8);
    out.push((v / 0x100_0000) as u8);
}

/// Appends the big-endian bytes of `v`.
pub fn push_u64_be(out: &mut Vec<u8>, v: u64)
    ensures
        final(out)@ == old(out)@ + u64_be_bytes(v),
{
    push_u32_be(out, (v / 0x1_0000_0000) as u32);
    push_u32_be(out, (v % 0x1_0000_0000) as u32);
    assert(final(out)@ =~= old(out)@ + u64_be_bytes(v));
}

/// Appends the big-endian two's complement bytes of `v`.
pub fn push_i32_be(out: &mut Vec<u8>, v: i32)
    ensures
        final(out)@ == old(out)@ + i32_be_bytes(v),
{
    push_u32_be(out, v as u32);
}

/// Appends all of `bytes`.
pub fn push_bytes(out: &mut Vec<u8>, bytes: &[u8])
    ensures
        final(out)@ == old(out)@ + bytes@,
{
    let ghost start = out@;
    let mut i: usize = 0;
    while i < bytes.len()
        invariant
            i <= bytes.len(),
            out@ == start + bytes@.take(i as int),
        decreases bytes.len() - i,
    {
        out.push(bytes[i]);
        i = i + 1;
        assert(out@ =~= start + bytes@.take(i as int));
    }
    assert(bytes@.take(i as int) =~= bytes@);
}

/// Reads the big-endian `u16` at `pos`.
pub fn read_u16_be(data: &[u8], pos: usize) -> (v: u16)
    requires
        pos + 2 <= data.len(),
    ensures
        v == u16_from_be(data@[pos as int], data@[pos + 1]),
{
    data[pos] as u16 * 256 + data[pos + 1] as u16
}

/// Reads the little-endian `u16` at `pos`.
pub fn read_u16_le(data: &[u8], pos: usize) -> (v: u16)
    requires
        pos + 2 <= data.len(),
    ensures
        v == u16_from_le(data@[pos as int], data@[pos + 1]),
{
    let low = data[pos] as u16;
    data[pos + 1] as u16 * 256 + low
}

/// Reads the big-endian `u32` at `pos`.
pub fn read_u32_be(data: &[u8], pos: usize) -> (v: u32)
    requires
        pos + 4 <= data.len(),
    ensures
        v == u32_from_be(data@[pos as int], data@[pos + 1], data@[pos + 2], data@[pos + 3]),
{
    data[pos] as u32 * 0x100_0000 + data[pos + 1] as u32 * 0x1_0000 + data[pos + 2] as u32 * 256
        + data[pos + 3] as u32
}

/// Reads the little-endian `u32` at `pos`.
pub fn read_u32_le(data: &[u8], pos: usize) -> (v: u32)
    requires
        pos + 4 <= data.len(),
    ensures
        v == u32_from_le(data@[pos as int], data@[pos + 1], data@[pos + 2], data@[pos + 3]),
{
    let low = data[pos] as u32;
    data[pos + 3] as u32 * 0x100_0000 + data[pos + 2] as u32 * 0x1_0000 + data[pos + 1] as u32
        * 256 + low
}

/// Reads the big-endian two's complement `i32` at `pos`.
pub fn read_i32_be(data: &[u8], pos: usize) -> (v: i32)
    requires
        pos + 4 <= data.len(),
    ensures
        v == i32_from_be(data@[pos as int], data@[pos + 1], data@[pos + 2], data@[pos + 3]),
{
    read_u32_be(data, pos) as i32
}

/// Reading back the big-endian bytes of a `u16` gives the `u16`.
pub proof fn lemma_u16_be_roundtrip(v: u16)
    ensures
        u16_be_bytes(v).len() == 2,
        u16_from_be(u16_be_bytes(v)[0], u16_be_bytes(v)[1]) == v,
{
}

/// Reading back the little-endian bytes of a `u16` gives the `u16`.
pub proof fn lemma_u16_le_roundtrip(v: u16)
    ensures
        u16_le_bytes(v).len() == 2,
        u16_from_le(u16_le_bytes(v)[0], u16_le_bytes(v)[1]) == v,
{
}

/// Reading back the big-endian bytes of a `u32` gives the `u32`.
pub proof fn lemma_u32_be_roundtrip(v: u32)
    ensures
        u32_be_bytes(v).len() == 4,
        u32_from_be(u32_be_bytes(v)[0], u32_be_bytes(v)[1], u32_be_bytes(v)[2], u32_be_bytes(v)[3])
            == v,
{
}

/// Reading back the little-endian bytes of a `u32` gives the `u32`.
pub proof fn lemma_u32_le_roundtrip(v: u32)
    ensures
        u32_le_bytes(v).len() == 4,
        u32_from_le(u32_le_bytes(v)[0], u32_le_bytes(v)[1], u32_le_bytes(v)[2], u32_le_bytes(v)[3])
            == v,
{
}

/// Reading back the big-endian bytes of an `i32` gives the `i32`.
pub proof fn lemma_i32_be_roundtrip(v: i32)
    ensures
        i32_be_bytes(v).len() == 4,
        i32_from_be(i32_be_bytes(v)[0], i32_be_bytes(v)[1], i32_be_bytes(v)[2], i32_be_bytes(v)[3])
            == v,
{
    lemma_u32_be_roundtrip(v as u32);
    assert((v as u32) as i32 == v) by (bit_vector);
}

} // verus!
