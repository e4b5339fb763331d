//! The decoder: it splits a file into header and body, walks both, and fills
//! a record.
//!
//! A file starts with two 32-bit numbers: where the header ends, and where
//! the next chapter starts (The Age of Kings has only the first). The header
//! follows as a raw deflate stream; the body follows it as it is.
use crate::anchors::{read_scenario, read_victory, skip_triggers, st_scenario, st_triggers, st_victory};
use crate::body_parser::{parse_body, run_body};
use crate::bytes::{avail, le32, read_bool, read_i32, read_u32};
use crate::cursor::{CursorView, StreamCursor};
use crate::error::ParseError;
use crate::guess_winner::{guess, guessed};
use crate::guid::{calc_guid, guid_of, md5_hex, md5_of};
use crate::header::{
    after, done, fail, mv, read_map_data, read_map_size, read_map_tiles, read_replay,
    read_version, reports, skip_ai, st_ai, st_map_data, st_map_size, st_map_tiles, st_replay,
    st_version, walked, Outcome, Walk,
};
use crate::lobby::{read_lobby, st_lobby};
use crate::players::{
    find_player_inits, read_inits, read_player_inits, read_settings,
    read_trail_types, settings_entries, st_find_inits, st_inits, st_settings, trail_types,
};
use crate::record::{is_aok, ver_is_aok, Record, RecordView};
use crate::teams::{build_teams, st_teams};
use flate2::read::ZlibDecoder;
use flate2::Decompress;
use std::io::Read;
use vstd::prelude::*;

verus! {

/// The error of std's input and output, which the inflation hands back.
#[verifier::external_type_specification]
#[verifier::external_body]
pub struct ExIoError(std::io::Error);

/// What a raw deflate stream at the start of `data` holds, and how many
/// bytes of `data` the stream takes; `None` where no such stream starts
/// there.
pub uninterp spec fn inflated(data: Seq<u8>) -> Option<(Seq<u8>, nat)>;

/// Runs flate2's `ZlibDecoder` on `data` with a `Decompress` that expects no
/// zlib header, reads it to the end and asks `total_in` for the bytes taken.
/// Claimed of them: what comes out, and whether anything does, depends on
/// `data` alone.
#[verifier::external_body]
fn inflate_raw(data: &[u8]) -> (res: Result<(Vec<u8>, u64), std::io::Error>)
    ensures
        match res {
            Ok(found) => inflated(data@) == Some((found.0@, found.1 as nat)),
            Err(_) => inflated(data@).is_none(),
        },
{
    let mut decoder = ZlibDecoder::new_with_decompress(data, Decompress::new(false));
    let mut out: Vec<u8> = Vec::new();
    decoder.read_to_end(&mut out)?;
    Ok((out, decoder.total_in()))
}

/// Where the deflate stream of the header starts: behind both numbers where
/// the second one points into the file, else behind the first.
pub open spec fn header_start(file: Seq<u8>) -> int {
    if le32(file, 4) < file.len() {
        8
    } else {
        4
    }
}

/// The two parts of a file: the header, inflated, and the place where the
/// body starts.
pub struct Container {
    pub header: Seq<u8>,
    pub body_start: int,
}

/// Splits a file. The body starts where the first number says, or where the
/// deflate stream ended if that is later; never behind the end of the file.
pub open spec fn container(file: Seq<u8>) -> Result<Container, ParseError> {
    if file.len() < 8 {
        Err(ParseError::Truncated)
    } else {
        let begin = header_start(file);
        match inflated(file.skip(begin)) {
            None => Err(ParseError::DecompressFailed),
            Some((header, used)) => {
                let end = if le32(file, 0) < used + begin {
                    used + begin
                } else {
                    le32(file, 0)
                };
                Ok(
                    Container {
                        header,
                        body_start: if end <= file.len() {
                            end
                        } else {
                            file.len() as int
                        },
                    },
                )
            },
        }
    }
}

/// The 32-bit number at `p`, least significant byte first.
fn le32_at(v: &Vec<u8>, p: usize) -> (x: u32)
    requires
        p + 4 <= v.len(),
    ensures
        x == le32(v@, p as int),
{
    (v[p] as u32) + 256 * (v[p + 1] as u32) + 65536 * (v[p + 2] as u32) + 16777216 * (v[p + 3] as u32)
}

/// A copy of `v[start .. end]`.
fn copy_range(v: &Vec<u8>, start: usize, end: usize) -> (out: Vec<u8>)
    requires
        start <= end <= v@.len(),
    ensures
        out@ == v@.subrange(start as int, end as int),
{
    let mut out: Vec<u8> = Vec::new();
    let mut i: usize = start;
    while i < end
        invariant
            start <= i <= end <= v@.len(),
            out@ == v@.subrange(start as int, i as int),
        decreases end - i,
    {
        out.push(v[i]);
        i = i + 1;
        assert(out@ =~= v@.subrange(start as int, i as int));
    }
    out
}

/// Recorded game parser. Used to parse recorded game file
pub struct Parser {
    /// The inflated header.
    pub header: StreamCursor,
    /// The whole file, with the data starting at the body.
    pub body: StreamCursor,
    /// MD5 digest of the file.
    pub md5: String,
}

impl Parser {
    /// Splits the file into header and body and inflates the header. The
    /// buffer is consumed.
    pub fn new(src: Vec<u8>) -> (res: Result<Parser, ParseError>)
        ensures
            match (container(src@), res) {
                (Ok(c), Ok(p)) => p.header@ == (CursorView { src: c.header, offset: 0, pos: 0 })
                    && p.body@ == (CursorView { src: src@, offset: c.body_start as nat, pos: 0 })
                    && p.md5@ == md5_hex(src@),
                (Err(e), Err(got)) => got == e,
                _ => false,
            },
    {
        if src.len() < 8 {
            return Err(ParseError::Truncated);
        }
        let md5 = md5_of(&src);
        let stated: u32 = le32_at(&src, 0);
        let next: u32 = le32_at(&src, 4);
        let begin: usize = if (next as u64) < (src.len() as u64) {
            8
        } else {
            4
        };
        let packed = vstd::slice::slice_subrange(src.as_slice(), begin, src.len());
        assert(packed@ =~= src@.skip(begin as int));
        let (header, used): (Vec<u8>, u64) = match inflate_raw(packed) {
            Ok(found) => found,
            Err(_) => {
                return Err(ParseError::DecompressFailed);
            },
        };
        let ended: u128 = used as u128 + begin as u128;
        let end: u128 = if (stated as u128) < ended {
            ended
        } else {
            stated as u128
        };
        let body_start: usize = if end <= src.len() as u128 {
            end as usize
        } else {
            src.len()
        };
        Ok(
            Parser {
                header: StreamCursor::new(header, 0),
                body: StreamCursor::new(src, body_start),
                md5,
            },
        )
    }
}

/// The header from the version to the start of the players' blocks.
#[verifier::opaque]
pub open spec fn walk_map(d: Seq<u8>, p: int, r: RecordView, body_first: Option<u32>) -> Walk {
    let w1 = st_version(d, p, r, body_first);
    if w1.err.is_some() {
        w1
    } else {
        let w2 = st_ai(d, w1.pos, w1.rec);
        if w2.err.is_some() {
            w2
        } else {
            let w3 = st_replay(d, w2.pos, w2.rec);
            let w4 = st_map_size(d, w3.pos, w3.rec);
            if w4.err.is_some() {
                w4
            } else {
                let w5 = st_map_tiles(d, w4.pos, w4.rec);
                if w5.err.is_some() {
                    w5
                } else {
                    st_map_data(d, w5.pos, w5.rec)
                }
            }
        }
    }
}

/// The sections of the header that are found by their anchors.
#[verifier::opaque]
pub open spec fn walk_anchors(d: Seq<u8>, r: RecordView) -> Outcome {
    let w1 = st_triggers(d, r);
    if w1.err.is_some() {
        Outcome { rec: w1.rec, err: w1.err }
    } else {
        let w2 = st_lobby(d, w1.pos, w1.rec);
        if w2.err.is_some() {
            Outcome { rec: w2.rec, err: w2.err }
        } else {
            let w3 = st_victory(d, w2.rec);
            if w3.err.is_some() {
                w3
            } else {
                st_scenario(d, w3.rec)
            }
        }
    }
}

/// The players: their entries, their blocks, their teams.
#[verifier::opaque]
pub open spec fn walk_players(d: Seq<u8>, r: RecordView) -> Outcome {
    match trail_types(d, r) {
        Err(e) => Outcome { rec: r, err: Some(e) },
        Ok(trail) => {
            let found = settings_entries(d, r, trail);
            let r1 = st_settings(d, r, trail);
            if !found.complete {
                Outcome { rec: r1, err: Some(ParseError::Truncated) }
            } else {
                match st_find_inits(d, r1, found.needles) {
                    Err(e) => Outcome { rec: r1, err: Some(e) },
                    Ok(r2) => {
                        let t = st_teams(d, r2);
                        if t.1.is_some() {
                            Outcome { rec: t.0, err: t.1 }
                        } else {
                            Outcome {
                                rec: st_inits(d, t.0),
                                err: read_inits(d, 0, t.0, t.0.players).1,
                            }
                        }
                    },
                }
            }
        },
    }
}

/// The whole header.
#[verifier::opaque]
pub open spec fn walk_header(d: Seq<u8>, p: int, r: RecordView, body_first: Option<u32>) -> Outcome {
    let w = walk_map(d, p, r, body_first);
    if w.err.is_some() {
        Outcome { rec: w.rec, err: w.err }
    } else {
        let a = walk_anchors(d, w.rec);
        if a.err.is_some() {
            a
        } else {
            walk_players(d, a.rec)
        }
    }
}

/// What stands before the operations of the body. The body has to state a
/// checksum interval of 500; after The Age of Kings a log version stands
/// before it and the multiplayer flag behind it.
#[verifier::opaque]
pub open spec fn st_preamble(d: Seq<u8>, p: int, r: RecordView) -> Walk {
    let q1 = if is_aok(r.ver) {
        p
    } else {
        mv(d, p, 4)
    };
    match read_i32(d, q1) {
        None => fail(r, ParseError::Truncated),
        Some(interval) => if interval != 500 {
            fail(r, ParseError::Corrupt)
        } else if is_aok(r.ver) {
            done(r, mv(d, q1, 36))
        } else {
            let q2 = mv(d, q1, 4);
            done(
                RecordView { ismultiplayer: read_bool(d, q2, 4), ..r },
                mv(d, after(d, q2, 4), 16),
            )
        },
    }
}

/// Reads what stands before the operations of the body.
pub fn read_preamble(b: &mut StreamCursor, r: &mut Record) -> (res: Result<(), ParseError>)
    ensures
        walked(
            st_preamble(old(b)@.data(), old(b)@.pos as int, old(r)@),
            old(b)@,
            final(b)@,
            final(r)@,
            res,
        ),
{
    reveal(st_preamble);
    let aok: bool = ver_is_aok(r.ver);
    if !aok {
        b.mov_by(4);
    }
    match b.peek_i32() {
        None => {
            return Err(ParseError::Truncated);
        },
        Some(interval) => {
            if interval != 500 {
                return Err(ParseError::Corrupt);
            }
        },
    }
    if aok {
        b.mov_by(36);
    } else {
        b.mov_by(4);
        r.ismultiplayer = b.get_bool(4);
        b.mov_by(16);
    }
    Ok(())
}

/// The body in chapters: the chapter `file[start .. end]` is walked as a
/// body of its own; where the file goes on behind it, two numbers there say
/// where the next chapter starts and ends, zero standing for the end of the
/// file. Chapters that do not lie in the file or do not go forward break the
/// format.
pub open spec fn chapters(file: Seq<u8>, start: int, end: int, r: RecordView) -> Outcome
    decreases file.len() - end,
{
    if !(0 <= start <= end <= file.len()) {
        Outcome { rec: r, err: Some(ParseError::Corrupt) }
    } else {
        let ran = run_body(file.subrange(start, end), 0, r);
        if ran.1.is_some() || end >= file.len() {
            Outcome { rec: ran.0, err: ran.1 }
        } else if !avail(file, end, 8) {
            Outcome { rec: ran.0, err: Some(ParseError::Truncated) }
        } else {
            let next_end = if le32(file, end + 4) == 0 {
                file.len() as int
            } else {
                le32(file, end + 4)
            };
            if next_end <= end || next_end > file.len() {
                Outcome { rec: ran.0, err: Some(ParseError::Corrupt) }
            } else {
                chapters(file, le32(file, end), next_end, ran.0)
            }
        }
    }
}

/// The operations of the body behind the preamble, which ended at `p`. The
/// Age of Kings has no chapters; elsewhere the second number of the file
/// says where the first chapter ends, if it is not zero.
#[verifier::opaque]
pub open spec fn walk_ops(b: CursorView, p: int, r: RecordView) -> Outcome {
    if b.src.len() < 8 {
        Outcome { rec: r, err: Some(ParseError::Truncated) }
    } else if is_aok(r.ver) || le32(b.src, 4) == 0 {
        let ran = run_body(b.data(), p, r);
        Outcome { rec: ran.0, err: ran.1 }
    } else {
        chapters(b.src, b.offset + p, le32(b.src, 4), r)
    }
}

/// The whole body.
#[verifier::opaque]
pub open spec fn walk_body(b: CursorView, r: RecordView) -> Outcome {
    let w = st_preamble(b.data(), b.pos as int, r);
    if w.err.is_some() {
        Outcome { rec: w.rec, err: w.err }
    } else {
        walk_ops(b.at(w.pos), w.pos, w.rec)
    }
}

/// What decoding makes of a record: the digest of the file, the header, the
/// body, and, where both could be read, the fingerprint and the winner.
#[verifier::opaque]
pub open spec fn parsed(header: Seq<u8>, p: int, body: CursorView, md5: Seq<char>, r: RecordView) -> Outcome {
    let h = walk_header(
        header,
        p,
        RecordView { md5: Some(md5), ..r },
        read_u32(body.data(), body.pos as int),
    );
    if h.err.is_some() {
        h
    } else {
        let b = walk_body(body, h.rec);
        if b.err.is_some() {
            b
        } else {
            Outcome { rec: guessed(RecordView { guid: Some(guid_of(b.rec)), ..b.rec }), err: None }
        }
    }
}

/// Walks the header up to the start of the players' blocks.
fn do_walk_map(h: &mut StreamCursor, r: &mut Record, body_first: Option<u32>) -> (res: Result<
    (),
    ParseError,
>)
    ensures
        walked(
            walk_map(old(h)@.data(), old(h)@.pos as int, old(r)@, body_first),
            old(h)@,
            final(h)@,
            final(r)@,
            res,
        ),
{
    reveal(walk_map);
    read_version(h, r, body_first)?;
    skip_ai(h, r)?;
    read_replay(h, r)?;
    read_map_size(h, r)?;
    read_map_tiles(h, r)?;
    read_map_data(h, r)
}

/// Walks the sections of the header that are found by their anchors.
fn do_walk_anchors(h: &mut StreamCursor, r: &mut Record) -> (res: Result<(), ParseError>)
    ensures
        final(r)@ == walk_anchors(old(h)@.data(), old(r)@).rec,
        reports(res, walk_anchors(old(h)@.data(), old(r)@).err),
        final(h)@ == old(h)@.at(final(h)@.pos as int),
{
    reveal(walk_anchors);
    skip_triggers(h, r)?;
    read_lobby(h, r)?;
    read_victory(h, r)?;
    read_scenario(h, r)
}

/// Walks the players' entries and blocks and builds the teams.
fn do_walk_players(h: &mut StreamCursor, r: &mut Record) -> (res: Result<(), ParseError>)
    ensures
        final(r)@ == walk_players(old(h)@.data(), old(r)@).rec,
        reports(res, walk_players(old(h)@.data(), old(r)@).err),
        final(h)@ == old(h)@.at(final(h)@.pos as int),
{
    reveal(walk_players);
    let trail = read_trail_types(h, r)?;
    let needles = read_settings(h, r, &trail)?;
    find_player_inits(h, r, &needles)?;
    build_teams(h, r)?;
    read_player_inits(h, r)
}

/// Walks the whole header.
fn do_walk_header(h: &mut StreamCursor, r: &mut Record, body_first: Option<u32>) -> (res: Result<
    (),
    ParseError,
>)
    ensures
        final(r)@ == walk_header(old(h)@.data(), old(h)@.pos as int, old(r)@, body_first).rec,
        reports(res, walk_header(old(h)@.data(), old(h)@.pos as int, old(r)@, body_first).err),
        final(h)@ == old(h)@.at(final(h)@.pos as int),
{
    reveal(walk_header);
    do_walk_map(h, r, body_first)?;
    do_walk_anchors(h, r)?;
    do_walk_players(h, r)
}

/// Walks the body chapter by chapter.
#[verifier::loop_isolation(false)]
fn do_chapters(file: &Vec<u8>, first_start: usize, first_end: usize, r: &mut Record) -> (res: Result<
    (),
    ParseError,
>)
    ensures
        final(r)@ == chapters(file@, first_start as int, first_end as int, old(r)@).rec,
        reports(res, chapters(file@, first_start as int, first_end as int, old(r)@).err),
{
    let len: usize = file.len();
    let mut start: usize = first_start;
    let mut end: usize = first_end;
    loop
        invariant
            chapters(file@, start as int, end as int, r@) == chapters(
                file@,
                first_start as int,
                first_end as int,
                old(r)@,
            ),
        decreases file@.len() - end,
    {
        if start > end || end > len {
            return Err(ParseError::Corrupt);
        }
        let mut chapter = StreamCursor::new(copy_range(file, start, end), 0);
        assert(chapter@.data() =~= file@.subrange(start as int, end as int));
        parse_body(&mut chapter, r)?;
        if end >= len {
            return Ok(());
        }
        if len - end < 8 {
            return Err(ParseError::Truncated);
        }
        let next_start: usize = le32_at(file, end) as usize;
        let pointer: u32 = le32_at(file, end + 4);
        let next_end: usize = if pointer == 0 {
            len
        } else {
            pointer as usize
        };
        if next_end <= end || next_end > len {
            return Err(ParseError::Corrupt);
        }
        start = next_start;
        end = next_end;
    }
}

/// Walks the operations of the body behind the preamble.
fn do_walk_ops(b: &mut StreamCursor, r: &mut Record) -> (res: Result<(), ParseError>)
    ensures
        final(r)@ == walk_ops(old(b)@, old(b)@.pos as int, old(r)@).rec,
        reports(res, walk_ops(old(b)@, old(b)@.pos as int, old(r)@).err),
        final(b)@ == old(b)@.at(final(b)@.pos as int),
{
    reveal(walk_ops);
    let here: usize = b.tell();
    let at: usize = b.offset();
    let file = b.source();
    if file.len() < 8 {
        return Err(ParseError::Truncated);
    }
    let pointer: u32 = le32_at(file, 4);
    if ver_is_aok(r.ver) || pointer == 0 {
        parse_body(b, r)
    } else {
        do_chapters(file, at + here, pointer as usize, r)
    }
}

impl Parser {
    /// The inflated header.
    pub fn header_bytes(&self) -> (d: &[u8])
        ensures
            d@ == self.header@.data(),
    {
        self.header.data()
    }

    /// The body as it stands in the file.
    pub fn body_bytes(&self) -> (d: &[u8])
        ensures
            d@ == self.body@.data(),
    {
        self.body.data()
    }

    /// Try to extract info from the recorded game. Parsing may not be
    /// complete: what was read before an error stays in the record, and a
    /// field that was not reached stays as it was.
    pub fn parse_to(&mut self, r: &mut Record) -> (res: Result<(), ParseError>)
        ensures
            final(r)@ == parsed(
                old(self).header@.data(),
                old(self).header@.pos as int,
                old(self).body@,
                old(self).md5@,
                old(r)@,
            ).rec,
            reports(
                res,
                parsed(
                    old(self).header@.data(),
                    old(self).header@.pos as int,
                    old(self).body@,
                    old(self).md5@,
                    old(r)@,
                ).err,
            ),
            final(self).header@ == old(self).header@.at(final(self).header@.pos as int),
            final(self).body@ == old(self).body@.at(final(self).body@.pos as int),
            final(self).md5@ == old(self).md5@,
    {
        reveal(walk_body);
        reveal(parsed);
        r.md5 = Some(self.md5.clone());
        let body_first = self.body.peek_u32();
        do_walk_header(&mut self.header, r, body_first)?;
        read_preamble(&mut self.body, r)?;
        do_walk_ops(&mut self.body, r)?;
        r.guid = Some(calc_guid(r)?);
        guess(r)
    }
}

} // verus!
