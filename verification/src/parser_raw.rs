//! Decoding in one call, for callers that want the record even where
//! decoding failed.
use crate::cursor::CursorView;
use crate::error::ParseError;
use crate::guid::md5_hex;
use crate::header::Outcome;
use crate::parser::{container, parsed, Parser};
use crate::record::{Record, RecordView};
use vstd::prelude::*;

verus! {

/// What decoding makes of a file: the record as far as it could be filled,
/// and the error that ended the decoding, if any.
pub open spec fn parse_file(file: Seq<u8>, filename: Seq<char>, lastmod: u64) -> Outcome {
    let r0 = RecordView::empty(filename, file.len() as usize, lastmod as u128);
    match container(file) {
        Err(e) => Outcome { rec: r0, err: Some(e) },
        Ok(c) => parsed(
            c.header,
            0,
            CursorView { src: file, offset: c.body_start as nat, pos: 0 },
            md5_hex(file),
            r0,
        ),
    }
}

/// Parses a recorded game. The record is not embellished: a civilization is
/// a raw id and not a name, and so on. Where decoding fails, the record
/// comes back with the error, filled as far as decoding got.
pub fn parse(buffer: Vec<u8>, filename: String, lastmod: u64) -> (res: Result<
    Record,
    (Record, ParseError),
>)
    ensures
        match res {
            Ok(r) => r@ == parse_file(buffer@, filename@, lastmod).rec && parse_file(
                buffer@,
                filename@,
                lastmod,
            ).err.is_none(),
            Err(failed) => failed.0@ == parse_file(buffer@, filename@, lastmod).rec
                && parse_file(buffer@, filename@, lastmod).err == Some(failed.1),
        },
{
    let mut r = Record::new(filename, buffer.len(), lastmod as u128);
    let mut parser = match Parser::new(buffer) {
        Ok(p) => p,
        Err(e) => {
            return Err((r, e));
        },
    };
    assert(parser.header@.data() =~= parser.header@.src);
    match parser.parse_to(&mut r) {
        Ok(()) => Ok(r),
        Err(e) => Err((r, e)),
    }
}

} // verus!
