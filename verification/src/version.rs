//! Which dialect of the game wrote a file.
//!
//! The dialect follows from the seven-byte tag at the start of the header,
//! the save version (a single-precision number, handled as its bit pattern)
//! and the log version that most dialects write before the body.
use crate::error::ParseError;
use crate::record::Version;
use vstd::prelude::*;

verus! {

/// Bit pattern of the single-precision number nearest to 11.7601.
pub const SAVE_HD: u32 = 0x413c_295f;

/// Bit pattern of the single-precision number nearest to 12.9699.
pub const SAVE_DE: u32 = 0x414f_84b6;

/// Bit pattern of the single-precision number -1.
pub const SAVE_MINUS_ONE: u32 = 0xbf80_0000;

/// Bit pattern of positive infinity; the patterns above it, up to the sign
/// bit, are not numbers.
pub const BITS_INFINITY: u32 = 0x7f80_0000;

/// Bit pattern of negative infinity; the patterns above it are not numbers.
pub const BITS_NEG_INFINITY: u32 = 0xff80_0000;

/// Bit pattern of negative zero, which is the sign bit alone.
pub const BITS_NEG_ZERO: u32 = 0x8000_0000;

/// The number with pattern `b` is at least the positive number with pattern
/// `t`. Positive numbers are ordered as their patterns are.
pub open spec fn bits_ge(b: u32, t: u32) -> bool {
    t <= b <= BITS_INFINITY
}

/// The number with pattern `b` is greater than the positive number with
/// pattern `t`.
pub open spec fn bits_gt(b: u32, t: u32) -> bool {
    t < b <= BITS_INFINITY
}

/// The number with pattern `b` is less than zero.
pub open spec fn bits_negative(b: u32) -> bool {
    BITS_NEG_ZERO < b <= BITS_NEG_INFINITY
}

/// A save version that this decoder does not read: 11.7601 or more, or
/// negative.
pub open spec fn unsupported_save(save: u32) -> bool {
    bits_ge(save, SAVE_HD) || bits_negative(save)
}

/// The tag `LLL 9.M`, where `LLL` are the three letters `a`, `b`, `c` and `M`
/// is `minor`.
pub open spec fn tag(a: u8, b: u8, c: u8, minor: u8) -> Seq<u8> {
    seq![a, b, c, 0x20u8, 0x39u8, 0x2eu8, minor]
}

/// The tag `VER 9.M`.
pub open spec fn ver_tag(minor: u8) -> Seq<u8> {
    tag(0x56, 0x45, 0x52, minor)
}

/// The tag `TRL 9.3`.
pub open spec fn trl_tag() -> Seq<u8> {
    tag(0x54, 0x52, 0x4c, 0x33)
}

/// The tag `MCP 9.F`.
pub open spec fn mcp_tag() -> Seq<u8> {
    tag(0x4d, 0x43, 0x50, 0x46)
}

/// The dialect of a `VER 9.4` file.
pub open spec fn conquerors(save: u32, log: u32) -> Version {
    if log == 0 || log == 3 {
        Version::AoC10a
    } else if log == 5 || bits_ge(save, SAVE_DE) {
        Version::DE
    } else if bits_gt(save, SAVE_HD) {
        Version::HD
    } else if log == 4 {
        Version::AoC10c
    } else {
        Version::AoC
    }
}

/// The dialect that a tag, a save version and a log version stand for.
/// `prior` is what was known before: a trial whose body starts like one of
/// The Age of Kings is a trial of that game. A `VER 9.4` file needs its log
/// version.
pub open spec fn classify(tag: Seq<u8>, save: u32, log: Option<u32>, prior: Option<Version>) -> Result<
    Version,
    ParseError,
> {
    if tag == trl_tag() {
        Ok(
            if prior == Some(Version::AoK) {
                Version::AoKTrial
            } else {
                Version::AoCTrial
            },
        )
    } else if tag == ver_tag(0x33) {
        Ok(Version::AoK)
    } else if tag == ver_tag(0x34) {
        match log {
            Some(l) => Ok(conquerors(save, l)),
            None => Err(ParseError::Truncated),
        }
    } else if tag == ver_tag(0x35) {
        Ok(Version::AoFE21)
    } else if tag == ver_tag(0x38) {
        Ok(Version::UP12)
    } else if tag == ver_tag(0x39) {
        Ok(Version::UP13)
    } else if tag == ver_tag(0x41) {
        Ok(Version::UP14RC1)
    } else if tag == ver_tag(0x42) {
        Ok(Version::UP14RC2)
    } else if tag == ver_tag(0x43) || tag == ver_tag(0x44) {
        Ok(Version::UP14)
    } else if tag == ver_tag(0x45) || tag == ver_tag(0x46) {
        Ok(Version::UP15)
    } else if tag == mcp_tag() {
        Ok(Version::MCP)
    } else {
        Ok(Version::Unknown)
    }
}

/// Whether the save version is one that this decoder does not read.
pub fn is_unsupported_save(save: u32) -> (b: bool)
    ensures
        b == unsupported_save(save),
{
    (save >= SAVE_HD && save <= BITS_INFINITY) || (save > BITS_NEG_ZERO && save <= BITS_NEG_INFINITY)
}

/// Whether `t` is the tag made of the letters `a`, `b`, `c` and `minor`.
fn tag_is(t: &Vec<u8>, a: u8, b: u8, c: u8, minor: u8) -> (r: bool)
    ensures
        r == (t@ == tag(a, b, c, minor)),
{
    if t.len() != 7 {
        assert(tag(a, b, c, minor).len() == 7);
        return false;
    }
    let r = t[0] == a && t[1] == b && t[2] == c && t[3] == 0x20 && t[4] == 0x39 && t[5] == 0x2e
        && t[6] == minor;
    proof {
        let want = tag(a, b, c, minor);
        if r {
            assert(t@ =~= want);
        } else {
            assert(t@[0] != want[0] || t@[1] != want[1] || t@[2] != want[2] || t@[3] != want[3]
                || t@[4] != want[4] || t@[5] != want[5] || t@[6] != want[6]);
        }
    }
    r
}

/// The dialect that a tag, a save version and a log version stand for.
pub fn classify_version(tag: &Vec<u8>, save: u32, log: Option<u32>, prior: Option<Version>) -> (res:
    Result<Version, ParseError>)
    ensures
        res == classify(tag@, save, log, prior),
{
    if tag_is(tag, 0x54, 0x52, 0x4c, 0x33) {
        match prior {
            Some(Version::AoK) => Ok(Version::AoKTrial),
            _ => Ok(Version::AoCTrial),
        }
    } else if tag_is(tag, 0x56, 0x45, 0x52, 0x33) {
        Ok(Version::AoK)
    } else if tag_is(tag, 0x56, 0x45, 0x52, 0x34) {
        match log {
            Some(l) => {
                if l == 0 || l == 3 {
                    Ok(Version::AoC10a)
                } else if l == 5 || (save >= SAVE_DE && save <= BITS_INFINITY) {
                    Ok(Version::DE)
                } else if save > SAVE_HD && save <= BITS_INFINITY {
                    Ok(Version::HD)
                } else if l == 4 {
                    Ok(Version::AoC10c)
                } else {
                    Ok(Version::AoC)
                }
            },
            None => Err(ParseError::Truncated),
        }
    } else if tag_is(tag, 0x56, 0x45, 0x52, 0x35) {
        Ok(Version::AoFE21)
    } else if tag_is(tag, 0x56, 0x45, 0x52, 0x38) {
        Ok(Version::UP12)
    } else if tag_is(tag, 0x56, 0x45, 0x52, 0x39) {
        Ok(Version::UP13)
    } else if tag_is(tag, 0x56, 0x45, 0x52, 0x41) {
        Ok(Version::UP14RC1)
    } else if tag_is(tag, 0x56, 0x45, 0x52, 0x42) {
        Ok(Version::UP14RC2)
    } else if tag_is(tag, 0x56, 0x45, 0x52, 0x43) || tag_is(tag, 0x56, 0x45, 0x52, 0x44) {
        Ok(Version::UP14)
    } else if tag_is(tag, 0x56, 0x45, 0x52, 0x45) || tag_is(tag, 0x56, 0x45, 0x52, 0x46) {
        Ok(Version::UP15)
    } else if tag_is(tag, 0x4d, 0x43, 0x50, 0x46) {
        Ok(Version::MCP)
    } else {
        Ok(Version::Unknown)
    }
}

} // verus!
