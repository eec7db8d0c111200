//! The protocol version exchanged first: `RFB xxx.yyy\n`.
use vstd::prelude::*;

verus! {

/// A protocol version: major, minor.
#[derive(Debug, Clone, Copy, PartialEq, Eq, Structural)]
pub struct Version(pub u8, pub u8);

/// The ASCII code of decimal digit `d`.
pub open spec fn digit_byte(d: u8) -> u8 {
    (48 + d) as u8
}

/// `v` in three decimal digits, zero-padded.
pub open spec fn three_digits(v: u8) -> Seq<u8> {
    seq![digit_byte(v / 100), digit_byte((v / 10) % 10), digit_byte(v % 10)]
}

/// Whether `b` is the ASCII code of a decimal digit.
pub open spec fn is_digit(b: u8) -> bool {
    48 <= b <= 57
}

/// The value of the decimal number written `b0 b1 b2`, as Rust reads a `u8`
/// from a string: an optional leading `+`, then digits only, at most 255.
pub open spec fn parse_u8_field(b0: u8, b1: u8, b2: u8) -> Option<u8> {
    if b0 == 43 {
        if is_digit(b1) && is_digit(b2) {
            Some(((b1 - 48) * 10 + (b2 - 48)) as u8)
        } else {
            None
        }
    } else if is_digit(b0) && is_digit(b1) && is_digit(b2) {
        let v = (b0 - 48) * 100 + (b1 - 48) * 10 + (b2 - 48);
        if v <= 255 {
            Some(v as u8)
        } else {
            None
        }
    } else {
        None
    }
}

/// Why a version could not be read.
#[derive(Debug, Clone, Copy, PartialEq, Eq, Structural)]
pub enum VersionError {
    /// The version message is shorter than 12 bytes.
    Incomplete,
    /// A version number is not a decimal number up to 255.
    InvalidNumber,
}

impl Version {
    /// The version this server offers: 3.8.
    pub open spec fn spec_default() -> Version {
        Version(3, 8)
    }

    /// The 12 bytes `RFB xxx.yyy\n` with the major and minor numbers.
    pub open spec fn wire_bytes(self) -> Seq<u8> {
        seq![82u8, 70u8, 66u8, 32u8] + three_digits(self.0) + seq![46u8] + three_digits(self.1)
            + seq![10u8]
    }

    /// What is read from the 12 bytes at the start of `s`: the numbers at bytes
    /// 4..7 and 8..11; the result holds the second number first.
    pub open spec fn spec_parse(s: Seq<u8>) -> Result<Version, VersionError> {
        if s.len() < 12 {
            Err(VersionError::Incomplete)
        } else {
            match (parse_u8_field(s[4], s[5], s[6]), parse_u8_field(s[8], s[9], s[10])) {
                (Some(major), Some(minor)) => Ok(Version(minor, major)),
                _ => Err(VersionError::InvalidNumber),
            }
        }
    }

    /// The wire form of the version.
    pub fn to_bytes(&self) -> (out: Vec<u8>)
        ensures
            out@ == self.wire_bytes(),
    {
        let mut out: Vec<u8> = Vec::new();
        out.push(82);
        out.push(70);
        out.push(66);
        out.push(32);
        push_digits(&mut out, self.0);
        out.push(46);
        push_digits(&mut out, self.1);
        out.push(10);
        assert(out@ =~= self.wire_bytes());
        out
    }

    /// Reads the version message at the start of `data`; the result holds the
    /// minor number first.
    pub fn parse(data: &[u8]) -> (r: Result<Version, VersionError>)
        ensures
            r == Version::spec_parse(data@),
    {
        if data.len() < 12 {
            return Err(VersionError::Incomplete);
        }
        let major = parse_field(data[4], data[5], data[6]);
        let minor = parse_field(data[8], data[9], data[10]);
        match (major, minor) {
            (Some(major), Some(minor)) => Ok(Version(minor, major)),
            _ => Err(VersionError::InvalidNumber),
        }
    }
}

impl Default for Version {
    /// Version 3.8.
    fn default() -> (v: Self)
        ensures
            v == Version::spec_default(),
    {
        Version(3, 8)
    }
}

/// Appends `v` in three decimal digits.
fn push_digits(out: &mut Vec<u8>, v: u8)
    ensures
        final(out)@ == old(out)@ + three_digits(v),
{
    out.push(48 + v / 100);
    out.push(48 + (v / 10) % 10);
    out.push(48 + v % 10);
    assert(final(out)@ =~= old(out)@ + three_digits(v));
}

/// Reads a three-character decimal `u8` field.
fn parse_field(b0: u8, b1: u8, b2: u8) -> (r: Option<u8>)
    ensures
        r == parse_u8_field(b0, b1, b2),
{
    let d1 = 48 <= b1 && b1 <= 57;
    let d2 = 48 <= b2 && b2 <= 57;
    if b0 == 43 {
        if d1 && d2 {
            Some((b1 - 48) * 10 + (b2 - 48))
        } else {
            None
        }
    } else if 48 <= b0 && b0 <= 57 && d1 && d2 {
        let v: u16 = (b0 - 48) as u16 * 100 + (b1 - 48) as u16 * 10 + (b2 - 48) as u16;
        if v <= 255 {
            Some(v as u8)
        } else {
            None
        }
    } else {
        None
    }
}

/// Reading back a version gives its numbers swapped: the server reads the
/// version it is sent as (minor, major).
pub proof fn lemma_version_read_swaps(v: Version)
    ensures
        Version::spec_parse(v.wire_bytes()) == Ok::<Version, VersionError>(Version(v.1, v.0)),
{
    let b = v.wire_bytes();
    assert(b[4] == three_digits(v.0)[0]);
    assert(b[5] == three_digits(v.0)[1]);
    assert(b[6] == three_digits(v.0)[2]);
    assert(b[8] == three_digits(v.1)[0]);
    assert(b[9] == three_digits(v.1)[1]);
    assert(b[10] == three_digits(v.1)[2]);
}

} // verus!
