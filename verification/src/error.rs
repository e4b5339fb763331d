//! The ways in which decoding a recorded game fails.
use vstd::prelude::*;

verus! {

/// Why a recorded game could not be decoded to the end.
#[derive(Debug, Clone, Copy, PartialEq, Eq, Structural)]
pub enum ParseError {
    /// The compressed header is not a valid deflate stream.
    DecompressFailed,
    /// The file comes from HD Edition, Definitive Edition or later.
    UnsupportedVersion,
    /// The map is negative in size, not square, or wider than 10000 tiles.
    MapInvalid,
    /// A magic byte sequence that anchors a header section was not found.
    AnchorMissing,
    /// A value that the layout requires lies beyond the end of its buffer.
    Truncated,
    /// The bytes break a rule of the format.
    Corrupt,
}

impl ParseError {
    /// A short description for people.
    pub fn message(&self) -> (s: &'static str)
        ensures
            s@ == match *self {
                ParseError::DecompressFailed => "Failed to decompress header"@,
                ParseError::UnsupportedVersion => "DE/HD or higher versions are not supported"@,
                ParseError::MapInvalid => "Map size is negative, too large or not square"@,
                ParseError::AnchorMissing => "can't find a header section"@,
                ParseError::Truncated => "unexpected end of data"@,
                ParseError::Corrupt => "data breaks the format"@,
            },
    {
        match self {
            ParseError::DecompressFailed => "Failed to decompress header",
            ParseError::UnsupportedVersion => "DE/HD or higher versions are not supported",
            ParseError::MapInvalid => "Map size is negative, too large or not square",
            ParseError::AnchorMissing => "can't find a header section",
            ParseError::Truncated => "unexpected end of data",
            ParseError::Corrupt => "data breaks the format",
        }
    }
}

} // verus!
