//! Decisions of the screen capture loop: which frames to publish, and how
//! long to wait before the next one.
pub mod frame;

use vstd::prelude::*;
use crate::protocol::pixel_format::{BitsPerPixel, PixelFormat};
use crate::protocol::primitives::Flag;

verus! {

/// The 128-bit XXH3 hash of `data`.
pub uninterp spec fn xxh3_128_of(data: Seq<u8>) -> u128;

/// Hashes a frame with `xxhash_rust::xxh3::xxh3_128` (unseeded), whose value
/// depends on the bytes alone.
#[verifier::external_body]
fn frame_hash(data: &[u8]) -> (h: u128)
    ensures
        h == xxh3_128_of(data@),
{
    xxhash_rust::xxh3::xxh3_128(data)
}

/// Remembers the hash of the last published frame, so that a frame equal to
/// it is not published again.
pub struct FrameGate {
    pub prev_hash: u128,
}

impl FrameGate {
    /// No frame published yet (the remembered hash is 0).
    pub fn new() -> (g: FrameGate)
        ensures
            g.prev_hash == 0,
    {
        FrameGate { prev_hash: 0 }
    }

    /// Whether a frame of hash `hash` is to be published: it is when the hash
    /// differs from the last published one, which it then replaces.
    pub fn observe_hash(&mut self, hash: u128) -> (publish: bool)
        ensures
            publish == (hash != old(self).prev_hash),
            final(self).prev_hash == hash,
    {
        if self.prev_hash != hash {
            self.prev_hash = hash;
            true
        } else {
            false
        }
    }

    /// Whether the captured `data` is to be published: its hash differs from
    /// that of the last published frame.
    pub fn observe(&mut self, data: &[u8]) -> (publish: bool)
        ensures
            publish == (xxh3_128_of(data@) != old(self).prev_hash),
            final(self).prev_hash == xxh3_128_of(data@),
    {
        let h = frame_hash(data);
        self.observe_hash(h)
    }
}

/// A span of time: whole seconds and nanoseconds below one second.
#[derive(Debug, Clone, Copy, PartialEq, Eq, Structural)]
pub struct FrameDelay {
    pub secs: u64,
    pub nanos: u32,
}

impl FrameDelay {
    /// The span in nanoseconds.
    pub open spec fn total_nanos(self) -> int {
        self.secs * 1_000_000_000 + self.nanos
    }

    /// The nanoseconds are below one second.
    pub open spec fn well_formed(self) -> bool {
        self.nanos < 1_000_000_000
    }

    /// `ms` milliseconds.
    pub fn from_millis(ms: u64) -> (d: FrameDelay)
        ensures
            d.well_formed(),
            d.total_nanos() == ms * 1_000_000,
    {
        let secs = ms / 1000;
        let rest = ms % 1000;
        FrameDelay { secs, nanos: (rest * 1_000_000) as u32 }
    }

    /// Whether `self` is shorter than `other`.
    pub fn shorter_than(&self, other: &FrameDelay) -> (r: bool)
        requires
            self.well_formed(),
            other.well_formed(),
        ensures
            r == (self.total_nanos() < other.total_nanos()),
    {
        self.secs < other.secs || (self.secs == other.secs && self.nanos < other.nanos)
    }
}

/// How long the capture loop sleeps after a round that took `elapsed`: the
/// rest of `period`, or nothing when the round took the whole period.
pub fn remaining_delay(period: FrameDelay, elapsed: FrameDelay) -> (r: Option<FrameDelay>)
    requires
        period.well_formed(),
        elapsed.well_formed(),
    ensures
        match r {
            Some(d) => elapsed.total_nanos() < period.total_nanos() && d.well_formed()
                && d.total_nanos() == period.total_nanos() - elapsed.total_nanos(),
            None => elapsed.total_nanos() >= period.total_nanos(),
        },
{
    if !elapsed.shorter_than(&period) {
        return None;
    }
    if period.nanos >= elapsed.nanos {
        Some(FrameDelay { secs: period.secs - elapsed.secs, nanos: period.nanos - elapsed.nanos })
    } else {
        Some(
            FrameDelay {
                secs: period.secs - elapsed.secs - 1,
                nanos: period.nanos + 1_000_000_000 - elapsed.nanos,
            },
        )
    }
}

/// Whether the capture loop grabs a frame: only while some connection, besides
/// the capturer's own receiver, listens for frames.
pub fn should_capture(receiver_count: usize) -> (b: bool)
    ensures
        b == (receiver_count > 1),
{
    receiver_count > 1
}

/// The format of captured frames: 32-bit little-endian true colour, 8 bits
/// per channel, red at bit 16, green at bit 8, blue at bit 0.
pub fn get_pixel_format() -> (f: PixelFormat)
    ensures
        f == PixelFormat::capture_format(),
{
    PixelFormat {
        bits_per_pixel: BitsPerPixel::U32,
        depth: 24,
        big_endian: Flag::No,
        true_color: Flag::Yes,
        red_max: 255,
        green_max: 255,
        blue_max: 255,
        red_shift: 16,
        green_shift: 8,
        blue_shift: 0,
    }
}

} // verus!
