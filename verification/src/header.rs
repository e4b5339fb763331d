//! The first part of the header: version, the AI block, the replay settings
//! and the map, up to where the players' blocks start.
//!
//! Each stage has a function that says, from the bytes and the record before
//! it, what the record is after it and where the next stage starts
//! ([`Walk`]), and a function that does it.
use crate::bytes::{avail, clamp_pos, read_bool, read_i32, read_u16, read_u32, read_u8};
use crate::cursor::{CursorView, StreamCursor};
use crate::error::ParseError;
use crate::record::{is_aok, ver_is_aok, DebugView, Record, RecordView, Version};
use crate::version::{classify, classify_version, is_unsupported_save, unsupported_save, SAVE_MINUS_ONE};
use vstd::prelude::*;

verus! {

/// Where a stage of the header ends: the record after it, the position of
/// the next stage, and the error that ended the decoding, if any.
pub struct Walk {
    pub rec: RecordView,
    pub pos: int,
    pub err: Option<ParseError>,
}

/// What decoding left: the record, and the error that ended it, if any.
pub struct Outcome {
    pub rec: RecordView,
    pub err: Option<ParseError>,
}

/// A result that says what an outcome says.
pub open spec fn reports(res: Result<(), ParseError>, err: Option<ParseError>) -> bool {
    match err {
        Some(e) => res == Err::<(), ParseError>(e),
        None => res.is_ok(),
    }
}

/// The stage failed with `e`, leaving the record as `rec`.
pub open spec fn fail(rec: RecordView, e: ParseError) -> Walk {
    Walk { rec, pos: 0, err: Some(e) }
}

/// The stage ended at `pos`, leaving the record as `rec`.
pub open spec fn done(rec: RecordView, pos: int) -> Walk {
    Walk { rec, pos, err: None }
}

/// The position after a read of `n` bytes at `p`, which does not move when
/// the bytes are not there.
pub open spec fn after(d: Seq<u8>, p: int, n: int) -> int {
    if avail(d, p, n) {
        p + n
    } else {
        p
    }
}

/// The position `p` moved by `k` inside the data `d`.
pub open spec fn mv(d: Seq<u8>, p: int, k: int) -> int {
    clamp_pos(d.len() as int, p, k)
}

/// The position `min(p, length of d)`.
pub open spec fn sk(d: Seq<u8>, p: int) -> int {
    if p < d.len() {
        p
    } else {
        d.len() as int
    }
}

/// A stage went from cursor `h0` to `h1`, left the record as `r1` and
/// returned `res`, as `w` says.
pub open spec fn walked(
    w: Walk,
    h0: CursorView,
    h1: CursorView,
    r1: RecordView,
    res: Result<(), ParseError>,
) -> bool {
    &&& r1 == w.rec
    &&& h1.wf()
    &&& h1 == h0.at(h1.pos as int)
    &&& match w.err {
        Some(e) => res == Err::<(), ParseError>(e),
        None => res.is_ok() && h1.pos == w.pos,
    }
}

/// The version stage. `body_first` is the first 32-bit word of the body: 500
/// where the body starts without a log version, as in The Age of Kings, and
/// the log version otherwise.
#[verifier::opaque]
pub open spec fn st_version(d: Seq<u8>, p: int, r: RecordView, body_first: Option<u32>) -> Walk {
    if !avail(d, p, 7) {
        fail(r, ParseError::Truncated)
    } else {
        let tag = d.subrange(p, p + 7);
        let q1 = mv(d, p, 8);
        let r1 = RecordView { verraw: Some(tag), versave: read_u32(d, q1), ..r };
        match read_u32(d, q1) {
            None => fail(r1, ParseError::Truncated),
            Some(save) => {
                let with2 = save == SAVE_MINUS_ONE;
                let q2 = if with2 {
                    after(d, q1 + 4, 4)
                } else {
                    q1 + 4
                };
                let plain = body_first == Some(500u32);
                let r2 = RecordView {
                    versave2: if with2 {
                        read_u32(d, q1 + 4)
                    } else {
                        r1.versave2
                    },
                    ver: if plain {
                        Some(Version::AoK)
                    } else {
                        r1.ver
                    },
                    verlog: if plain {
                        r1.verlog
                    } else {
                        body_first
                    },
                    ..r1
                };
                match classify(tag, save, r2.verlog, r2.ver) {
                    Err(e) => fail(r2, e),
                    Ok(v) => {
                        let r3 = RecordView { ver: Some(v), ..r2 };
                        if unsupported_save(save) {
                            fail(r3, ParseError::UnsupportedVersion)
                        } else {
                            done(r3, q2)
                        }
                    },
                }
            },
        }
    }
}

/// Reads the tag and the save version, and settles the dialect.
pub fn read_version(h: &mut StreamCursor, r: &mut Record, body_first: Option<u32>) -> (res: Result<
    (),
    ParseError,
>)
    ensures
        walked(
            st_version(old(h)@.data(), old(h)@.pos as int, old(r)@, body_first),
            old(h)@,
            final(h)@,
            final(r)@,
            res,
        ),
{
    reveal(st_version);
    let tag = match h.peek_bytes(7) {
        Some(t) => t,
        None => {
            return Err(ParseError::Truncated);
        },
    };
    h.mov_by(8);
    r.versave = h.get_u32();
    let save: u32 = match r.versave {
        Some(s) => s,
        None => {
            r.verraw = Some(tag);
            return Err(ParseError::Truncated);
        },
    };
    if save == SAVE_MINUS_ONE {
        r.versave2 = h.get_u32();
    }
    match body_first {
        Some(500u32) => {
            r.ver = Some(Version::AoK);
        },
        _ => {
            r.verlog = body_first;
        },
    }
    let found = classify_version(&tag, save, r.verlog, r.ver);
    r.verraw = Some(tag);
    match found {
        Err(e) => {
            return Err(e);
        },
        Ok(v) => {
            r.ver = Some(v);
        },
    }
    if is_unsupported_save(save) {
        return Err(ParseError::UnsupportedVersion);
    }
    Ok(())
}

/// The position after `n` strings of the AI block, each a 32-bit length and
/// that many bytes, or `None` when a length cannot be read.
pub open spec fn ai_strings(d: Seq<u8>, p: int, n: nat) -> Option<int>
    decreases n,
{
    if n == 0 {
        Some(p)
    } else {
        match read_u32(d, p) {
            None => None,
            Some(l) => ai_strings(d, mv(d, p + 4, l as int), (n - 1) as nat),
        }
    }
}

/// Bytes that follow the rules of the AI block: 104 + 320 + 1024 + 4096.
pub const AI_TAIL: u32 = 5544;

/// Bytes of one rule of the AI block: 16, and 16 actions of 24 bytes.
pub const AI_RULE_SIZE: u32 = 400;

/// The position after `groups` rule groups of the AI block, or `None` when a
/// number of rules cannot be read.
pub open spec fn ai_rules(d: Seq<u8>, p: int, groups: nat) -> Option<int>
    decreases groups,
{
    if groups == 0 {
        Some(p)
    } else {
        let q1 = mv(d, p, 10);
        match read_u16(d, q1) {
            None => None,
            Some(n) => ai_rules(d, mv(d, mv(d, q1 + 2, 4), n * AI_RULE_SIZE), (groups - 1) as nat),
        }
    }
}

/// The AI stage: a flag, and where it is set the strings and rules of the
/// computer players, which are skipped.
#[verifier::opaque]
pub open spec fn st_ai(d: Seq<u8>, p: int, r: RecordView) -> Walk {
    let r1 = RecordView {
        include_ai: read_bool(d, p, 4),
        debug: DebugView { aipos: p as usize, ..r.debug },
        ..r
    };
    match read_bool(d, p, 4) {
        None => fail(r1, ParseError::Truncated),
        Some(false) => done(r1, p + 4),
        Some(true) => {
            let q1 = mv(d, p + 4, 2);
            match read_u16(d, q1) {
                None => fail(r1, ParseError::Truncated),
                Some(n) => match ai_strings(d, mv(d, q1 + 2, 4), n as nat) {
                    None => fail(r1, ParseError::Truncated),
                    Some(q2) => match ai_rules(d, mv(d, q2, 6), 8) {
                        None => fail(r1, ParseError::Truncated),
                        Some(q3) => done(r1, mv(d, q3, AI_TAIL as int)),
                    },
                },
            }
        },
    }
}

/// Reads the AI flag and skips the AI block.
#[verifier::loop_isolation(false)]
pub fn skip_ai(h: &mut StreamCursor, r: &mut Record) -> (res: Result<(), ParseError>)
    ensures
        walked(st_ai(old(h)@.data(), old(h)@.pos as int, old(r)@), old(h)@, final(h)@, final(r)@, res),
{
    reveal(st_ai);
    let ghost d = h@.data();
    r.debug.aipos = h.tell();
    r.include_ai = h.get_bool(4);
    let with_ai: bool = match r.include_ai {
        Some(b) => b,
        None => {
            return Err(ParseError::Truncated);
        },
    };
    if !with_ai {
        return Ok(());
    }
    h.mov_by(2);
    let n: u16 = match h.get_u16() {
        Some(n) => n,
        None => {
            return Err(ParseError::Truncated);
        },
    };
    h.mov_by(4);
    let ghost r1 = r@;
    let ghost p_strings = h@.pos as int;
    let mut i: u16 = 0;
    while i < n
        invariant
            i <= n,
            h@.wf(),
            h@ == old(h)@.at(h@.pos as int),
            r@ == r1,
            ai_strings(d, h@.pos as int, (n - i) as nat) == ai_strings(d, p_strings, n as nat),
        decreases n - i,
    {
        match h.get_u32() {
            Some(l) => {
                h.mov_by(l as i128);
            },
            None => {
                return Err(ParseError::Truncated);
            },
        }
        i = i + 1;
    }
    h.mov_by(6);
    let ghost p_rules = h@.pos as int;
    let mut g: u8 = 0;
    while g < 8
        invariant
            g <= 8,
            h@.wf(),
            h@ == old(h)@.at(h@.pos as int),
            r@ == r1,
            ai_rules(d, h@.pos as int, (8 - g) as nat) == ai_rules(d, p_rules, 8),
        decreases 8 - g,
    {
        h.mov_by(10);
        match h.get_u16() {
            Some(rules) => {
                h.mov_by(4);
                h.mov_by(rules as i128 * AI_RULE_SIZE as i128);
            },
            None => {
                return Err(ParseError::Truncated);
            },
        }
        g = g + 1;
    }
    h.mov_by(AI_TAIL as i128);
    Ok(())
}

/// The replay settings: speed, the slot of the player who recorded, the
/// number of players, and two flags that The Age of Kings does not have.
#[verifier::opaque]
pub open spec fn st_replay(d: Seq<u8>, p: int, r: RecordView) -> Walk {
    let q1 = mv(d, p, 12);
    let q2 = mv(d, after(d, q1, 4), 29);
    let q3 = after(d, q2, 2);
    let q4 = after(d, q3, 1);
    let r1 = RecordView {
        speed_raw: read_u32(d, q1),
        recorder: read_u16(d, q2),
        totalplayers: read_u8(d, q3),
        ..r
    };
    if is_aok(r.ver) {
        done(r1, mv(d, q4, 60))
    } else {
        let q5 = after(d, q4, 1);
        done(
            RecordView { instantbuild: read_bool(d, q4, 1), enablecheats: read_bool(d, q5, 1), ..r1 },
            mv(d, after(d, q5, 1), 60),
        )
    }
}

/// Reads the replay settings.
pub fn read_replay(h: &mut StreamCursor, r: &mut Record) -> (res: Result<(), ParseError>)
    ensures
        walked(
            st_replay(old(h)@.data(), old(h)@.pos as int, old(r)@),
            old(h)@,
            final(h)@,
            final(r)@,
            res,
        ),
        res.is_ok(),
{
    reveal(st_replay);
    h.mov_by(12);
    r.speed_raw = h.get_u32();
    h.mov_by(29);
    r.recorder = h.get_u16();
    r.totalplayers = h.get_u8();
    if !ver_is_aok(r.ver) {
        r.instantbuild = h.get_bool(1);
        r.enablecheats = h.get_bool(1);
    }
    h.mov_by(2 + 58);
    Ok(())
}

/// The widest map that is read.
pub const MAP_MAX: i32 = 10000;

/// The size of the map, which has to be a square of at most 10000 tiles a
/// side.
#[verifier::opaque]
pub open spec fn st_map_size(d: Seq<u8>, p: int, r: RecordView) -> Walk {
    let q1 = after(d, p, 4);
    let r1 = RecordView { mapx: read_i32(d, p), mapy: read_i32(d, q1), ..r };
    match (read_i32(d, p), read_i32(d, q1)) {
        (Some(x), Some(y)) => if x < 0 || y < 0 || x > MAP_MAX || y > MAP_MAX || x != y {
            fail(r1, ParseError::MapInvalid)
        } else {
            done(r1, q1 + 4)
        },
        _ => fail(r1, ParseError::Truncated),
    }
}

/// Reads and checks the size of the map.
pub fn read_map_size(h: &mut StreamCursor, r: &mut Record) -> (res: Result<(), ParseError>)
    ensures
        walked(
            st_map_size(old(h)@.data(), old(h)@.pos as int, old(r)@),
            old(h)@,
            final(h)@,
            final(r)@,
            res,
        ),
        res.is_ok() ==> final(r)@.mapx.is_some() && final(r)@.mapx == final(r)@.mapy && 0
            <= final(r)@.mapx.unwrap() <= MAP_MAX,
{
    reveal(st_map_size);
    r.mapx = h.get_i32();
    r.mapy = h.get_i32();
    match (r.mapx, r.mapy) {
        (Some(x), Some(y)) => {
            if x < 0 || y < 0 || x > MAP_MAX || y > MAP_MAX || x != y {
                Err(ParseError::MapInvalid)
            } else {
                Ok(())
            }
        },
        _ => Err(ParseError::Truncated),
    }
}

/// The position after `n` map zones on a map of `tiles` tiles, or `None`
/// when a count cannot be read.
pub open spec fn map_zones(d: Seq<u8>, p: int, n: nat, tiles: int) -> Option<int>
    decreases n,
{
    if n == 0 {
        Some(p)
    } else {
        let q1 = mv(d, p, 1275 + tiles);
        match read_i32(d, q1) {
            None => None,
            Some(floats) => map_zones(d, mv(d, q1 + 4, floats * 4 + 4), (n - 1) as nat, tiles),
        }
    }
}

/// The position after `n` lists of obstructions, or `None` when a count
/// cannot be read.
pub open spec fn obstructions(d: Seq<u8>, p: int, n: nat) -> Option<int>
    decreases n,
{
    if n == 0 {
        Some(p)
    } else {
        match read_i32(d, p) {
            None => None,
            Some(k) => obstructions(d, mv(d, p + 4, k * 8), (n - 1) as nat),
        }
    }
}

/// Bytes per tile: four where the first byte of the tiles is 255, else two.
pub open spec fn tile_stride(first: u8) -> int {
    if first == 255 {
        4
    } else {
        2
    }
}

/// A count as the number of rounds of a loop: none where it is negative.
pub open spec fn rounds(n: int) -> nat {
    if n > 0 {
        n as nat
    } else {
        0
    }
}

/// The zones of the map, the fog flag and the tiles. A negative number of
/// zones cannot be walked.
#[verifier::opaque]
pub open spec fn st_map_tiles(d: Seq<u8>, p: int, r: RecordView) -> Walk {
    match (read_i32(d, p), r.mapx, r.mapy) {
        (Some(zones), Some(x), Some(y)) => if zones < 0 {
            fail(r, ParseError::Truncated)
        } else {
            match map_zones(d, p + 4, zones as nat, x * y) {
                None => fail(r, ParseError::Truncated),
                Some(q1) => {
                    let q2 = mv(d, after(d, q1, 1), 1);
                    let r1 = RecordView {
                        fogofwar: read_bool(d, q1, 1),
                        debug: DebugView { mappos: Some(q2 as usize), ..r.debug },
                        ..r
                    };
                    match read_u8(d, q2) {
                        None => fail(r1, ParseError::Truncated),
                        Some(first) => done(r1, mv(d, q2, x * y * tile_stride(first))),
                    }
                },
            }
        },
        _ => fail(r, ParseError::Truncated),
    }
}

/// Skips the zones of the map, reads the fog flag and skips the tiles.
#[verifier::loop_isolation(false)]
pub fn read_map_tiles(h: &mut StreamCursor, r: &mut Record) -> (res: Result<(), ParseError>)
    ensures
        walked(
            st_map_tiles(old(h)@.data(), old(h)@.pos as int, old(r)@),
            old(h)@,
            final(h)@,
            final(r)@,
            res,
        ),
{
    reveal(st_map_tiles);
    let ghost d = h@.data();
    let zones: i32 = match h.get_i32() {
        Some(n) => n,
        None => {
            return Err(ParseError::Truncated);
        },
    };
    let (x, y): (i32, i32) = match (r.mapx, r.mapy) {
        (Some(x), Some(y)) => (x, y),
        _ => {
            return Err(ParseError::Truncated);
        },
    };
    if zones < 0 {
        return Err(ParseError::Truncated);
    }
    assert(-0x8000_0000 * 0x8000_0000 <= x * y <= 0x8000_0000 * 0x8000_0000) by (nonlinear_arith)
        requires
            -0x8000_0000 <= x < 0x8000_0000,
            -0x8000_0000 <= y < 0x8000_0000,
    ;
    let tiles: i128 = x as i128 * y as i128;
    let ghost p_zones = h@.pos as int;
    let mut i: i32 = 0;
    while i < zones
        invariant
            0 <= i <= zones,
            h@.wf(),
            h@ == old(h)@.at(h@.pos as int),
            r@ == old(r)@,
            map_zones(d, h@.pos as int, (zones - i) as nat, tiles as int) == map_zones(
                d,
                p_zones,
                zones as nat,
                tiles as int,
            ),
        decreases zones - i,
    {
        h.mov_by(1275 + tiles);
        match h.get_i32() {
            Some(floats) => {
                h.mov_by(floats as i128 * 4 + 4);
            },
            None => {
                return Err(ParseError::Truncated);
            },
        }
        i = i + 1;
    }
    r.fogofwar = h.get_bool(1);
    h.mov_by(1);
    r.debug.mappos = Some(h.tell());
    let first: u8 = match h.peek_u8() {
        Some(b) => b,
        None => {
            return Err(ParseError::Truncated);
        },
    };
    let stride: i128 = if first == 255 {
        4
    } else {
        2
    };
    h.mov_by(tiles * stride);
    Ok(())
}

/// What follows the tiles: the map data and its obstructions, the visibility
/// map, the restore time and the particles. Where it ends the players'
/// blocks start; a trial of The Age of Kings has four bytes more.
#[verifier::opaque]
pub open spec fn st_map_data(d: Seq<u8>, p: int, r: RecordView) -> Walk {
    match read_i32(d, p) {
        None => fail(r, ParseError::Truncated),
        Some(n) => match obstructions(d, mv(d, p + 4, 4 + n * 4), rounds(n as int)) {
            None => fail(r, ParseError::Truncated),
            Some(q1) => match (read_i32(d, q1), read_i32(d, q1 + 4)) {
                (Some(w), Some(t)) => {
                    let q2 = mv(d, q1 + 8, w * t * 4);
                    let r1 = RecordView { restoretime: read_u32(d, q2), ..r };
                    let q3 = after(d, q2, 4);
                    match read_u32(d, q3) {
                        None => fail(r1, ParseError::Truncated),
                        Some(particles) => {
                            let q4 = mv(d, q3 + 4, 27 * particles + 4);
                            let init = if r.ver == Some(Version::AoKTrial) && q4 + 4 <= usize::MAX {
                                q4 + 4
                            } else {
                                q4
                            };
                            done(
                                RecordView {
                                    debug: DebugView { initpos: init as usize, ..r1.debug },
                                    ..r1
                                },
                                q4,
                            )
                        },
                    }
                },
                _ => fail(r, ParseError::Truncated),
            },
        },
    }
}

/// Skips the map data and notes where the players' blocks start.
#[verifier::loop_isolation(false)]
pub fn read_map_data(h: &mut StreamCursor, r: &mut Record) -> (res: Result<(), ParseError>)
    ensures
        walked(
            st_map_data(old(h)@.data(), old(h)@.pos as int, old(r)@),
            old(h)@,
            final(h)@,
            final(r)@,
            res,
        ),
{
    reveal(st_map_data);
    let ghost d = h@.data();
    let n: i32 = match h.get_i32() {
        Some(n) => n,
        None => {
            return Err(ParseError::Truncated);
        },
    };
    h.mov_by(4 + n as i128 * 4);
    let ghost p_obs = h@.pos as int;
    let mut i: i32 = 0;
    while i < n
        invariant
            0 <= i,
            i <= n || n < 0,
            h@.wf(),
            h@ == old(h)@.at(h@.pos as int),
            r@ == old(r)@,
            obstructions(d, h@.pos as int, rounds(n - i)) == obstructions(
                d,
                p_obs,
                rounds(n as int),
            ),
        decreases n - i,
    {
        match h.get_i32() {
            Some(k) => {
                h.mov_by(k as i128 * 8);
            },
            None => {
                return Err(ParseError::Truncated);
            },
        }
        i = i + 1;
    }
    let w: i32 = match h.get_i32() {
        Some(w) => w,
        None => {
            return Err(ParseError::Truncated);
        },
    };
    let t: i32 = match h.get_i32() {
        Some(t) => t,
        None => {
            return Err(ParseError::Truncated);
        },
    };
    assert(-0x8000_0000 * 0x8000_0000 <= w * t <= 0x8000_0000 * 0x8000_0000) by (nonlinear_arith)
        requires
            -0x8000_0000 <= w < 0x8000_0000,
            -0x8000_0000 <= t < 0x8000_0000,
    ;
    h.mov_by(w as i128 * t as i128 * 4);
    r.restoretime = h.get_u32();
    let particles: u32 = match h.get_u32() {
        Some(k) => k,
        None => {
            return Err(ParseError::Truncated);
        },
    };
    h.mov_by(27 * particles as i128 + 4);
    let here: usize = h.tell();
    r.debug.initpos = match r.ver {
        Some(Version::AoKTrial) => {
            if here <= usize::MAX - 4 {
                here + 4
            } else {
                here
            }
        },
        _ => here,
    };
    Ok(())
}

} // verus!
