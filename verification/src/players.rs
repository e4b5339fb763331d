//! The players: their entries in the game settings, the search for the block
//! that each player has in the header, and what is read from that block.
//!
//! A player's block starts with the player's name, so it is found by a
//! needle made of the name and of six bytes that follow every name.
use crate::bytes::{
    avail, find_in, lemma_find_in_bounds, read_bool, read_i32, read_str_l16, read_str_l32,
    read_u32, read_u8,
};
use crate::cursor::{opt_bytes, StreamCursor};
use crate::error::ParseError;
use crate::header::{after, mv, sk};
use crate::record::{
    is_aok, ver_is_aok, DebugView, Player, PlayerView, Record, RecordView, Version,
};
use vstd::prelude::*;

verus! {

/// Bytes from the start of the players' blocks to the first name, after the
/// number of players.
pub const INIT_PREFIX: usize = 2 + 36 + 4 + 1;

/// Bytes of the first player's block that hold no name, beside the tiles.
pub const INIT_SKIP: usize = 35100;

/// The least size of a player's block.
pub const INIT_BLOCK_MIN: usize = 1817;

/// The views of a list of byte strings.
pub open spec fn bytes_views(s: Seq<Vec<u8>>) -> Seq<Seq<u8>> {
    Seq::new(s.len(), |i: int| s[i]@)
}

/// Where the first name of the players' blocks stands.
pub open spec fn first_name_pos(d: Seq<u8>, r: RecordView, total: u8) -> int {
    sk(d, r.debug.initpos + INIT_PREFIX + total)
}

/// The six bytes that follow the first name of the players' blocks: they
/// follow every player's name there.
#[verifier::opaque]
pub open spec fn trail_types(d: Seq<u8>, r: RecordView) -> Result<Seq<u8>, ParseError> {
    match r.totalplayers {
        None => Err(ParseError::Truncated),
        Some(total) => {
            let p = read_str_l16(d, first_name_pos(d, r, total)).next;
            if avail(d, p, 6) {
                Ok(d.subrange(p, p + 6))
            } else {
                Err(ParseError::Truncated)
            }
        },
    }
}

/// Moves to the first name of the players' blocks.
fn seek_first_name(h: &mut StreamCursor, r: &Record, total: u8)
    ensures
        final(h)@ == old(h)@.at(first_name_pos(old(h)@.data(), r@, total)),
        final(h)@.wf(),
{
    let len: usize = h.data_len();
    let add: usize = INIT_PREFIX + total as usize;
    if r.debug.initpos > len || add > len - r.debug.initpos {
        h.seek(len);
    } else {
        h.seek(r.debug.initpos + add);
    }
}

/// Reads the six bytes that follow the first name of the players' blocks.
pub fn read_trail_types(h: &mut StreamCursor, r: &Record) -> (res: Result<Vec<u8>, ParseError>)
    ensures
        match trail_types(old(h)@.data(), r@) {
            Ok(t) => res.is_ok() && res.unwrap()@ == t,
            Err(e) => res.is_err() && res.unwrap_err() == e,
        },
        res.is_ok() ==> res.unwrap()@.len() == 6,
        final(h)@ == old(h)@.at(final(h)@.pos as int),
{
    reveal(trail_types);
    let total: u8 = match r.totalplayers {
        Some(t) => t,
        None => {
            return Err(ParseError::Truncated);
        },
    };
    seek_first_name(h, r, total);
    h.extract_str_l16();
    match h.peek_bytes(6) {
        Some(t) => Ok(t),
        None => Err(ParseError::Truncated),
    }
}

/// The two bytes of a 16-bit number, least significant first.
pub open spec fn le16_bytes(v: int) -> Seq<u8> {
    seq![(v % 256) as u8, ((v / 256) % 256) as u8]
}

/// The needle that finds the block of the player whose name field stands at
/// `p`: the length of the name with its NUL, in 16 bits; the name; a NUL;
/// the six trailing bytes. `None` where the name is not all there.
pub open spec fn needle_at(d: Seq<u8>, p: int, trail: Seq<u8>) -> Option<Seq<u8>> {
    match read_i32(d, p) {
        None => None,
        Some(n) => if n < 0 || !avail(d, p + 4, n as int) {
            None
        } else {
            Some(le16_bytes((n + 1) % 65536) + d.subrange(p + 4, p + 4 + n) + seq![0u8] + trail)
        },
    }
}

/// Builds the needle for the name field at the position, without moving.
#[verifier::loop_isolation(false)]
fn build_needle(h: &StreamCursor, trail: &Vec<u8>) -> (res: Option<Vec<u8>>)
    ensures
        opt_bytes(res) == needle_at(h@.data(), h@.pos as int, trail@),
        h@.wf(),
{
    let n: i32 = match h.peek_i32() {
        Some(n) => n,
        None => {
            return None;
        },
    };
    if n < 0 {
        return None;
    }
    let len: usize = n as usize;
    let cur = h.current();
    if cur.len() < 4 || cur.len() - 4 < len {
        return None;
    }
    let ghost d = h@.data();
    let ghost p = h@.pos as int;
    let with_nul: u32 = (n as u32 + 1) % 65536;
    let mut needle: Vec<u8> = Vec::new();
    needle.push((with_nul % 256) as u8);
    needle.push(((with_nul / 256) % 256) as u8);
    assert(needle@ =~= le16_bytes((n + 1) % 65536));
    let mut i: usize = 0;
    while i < len
        invariant
            i <= len,
            needle@ == le16_bytes((n + 1) % 65536) + d.subrange(p + 4, p + 4 + i),
        decreases len - i,
    {
        needle.push(cur[4 + i]);
        i = i + 1;
        assert(needle@ =~= le16_bytes((n + 1) % 65536) + d.subrange(p + 4, p + 4 + i));
    }
    needle.push(0u8);
    let ghost head = needle@;
    let mut k: usize = 0;
    while k < trail.len()
        invariant
            k <= trail.len(),
            needle@ == head + trail@.subrange(0, k as int),
        decreases trail.len() - k,
    {
        needle.push(trail[k]);
        k = k + 1;
        assert(needle@ =~= head + trail@.subrange(0, k as int));
    }
    assert(trail@.subrange(0, trail@.len() as int) =~= trail@);
    assert(head =~= le16_bytes((n + 1) % 65536) + d.subrange(p + 4, p + 4 + n) + seq![0u8]);
    Some(needle)
}

/// The players' entries of the game settings as far as they were read: the
/// players, a needle for each entry read, and whether all nine were read.
pub struct Entries {
    pub players: Seq<PlayerView>,
    pub needles: Seq<Seq<u8>>,
    pub complete: bool,
}

/// One entry read at `p` into the player `pl`, without the name.
pub open spec fn entry_head(d: Seq<u8>, p: int, pl: PlayerView) -> PlayerView {
    PlayerView { index: read_i32(d, p), playertype: read_i32(d, after(d, p, 4)), ..pl }
}

/// Where the name field of the entry at `p` stands.
pub open spec fn entry_name_pos(d: Seq<u8>, p: int) -> int {
    after(d, after(d, p, 4), 4)
}

/// The entries from slot `i` on, read from `p`. Reading stops at the first
/// name that is not all there.
pub open spec fn entries(
    d: Seq<u8>,
    p: int,
    i: nat,
    players: Seq<PlayerView>,
    needles: Seq<Seq<u8>>,
    trail: Seq<u8>,
) -> Entries
    decreases 9 - i,
{
    if i >= 9 {
        Entries { players, needles, complete: true }
    } else {
        let head = entry_head(d, p, players[i as int]);
        let q = entry_name_pos(d, p);
        match needle_at(d, q, trail) {
            None => Entries { players: players.update(i as int, head), needles, complete: false },
            Some(needle) => {
                let name = read_str_l32(d, q);
                entries(
                    d,
                    name.next,
                    i + 1,
                    players.update(i as int, PlayerView { name_raw: name.text, ..head }),
                    needles.push(needle),
                    trail,
                )
            },
        }
    }
}

/// Where the players' entries start in the game settings.
pub open spec fn entries_pos(d: Seq<u8>, r: RecordView) -> int {
    let q0 = mv(d, sk(d, r.debug.settingspos as int), 12);
    let q1 = if is_aok(r.ver) {
        q0
    } else {
        after(d, q0, 4)
    };
    after(d, after(d, q1, 4), 4)
}

/// The record after the game settings were read, names left aside.
pub open spec fn with_settings(d: Seq<u8>, r: RecordView) -> RecordView {
    let q0 = mv(d, sk(d, r.debug.settingspos as int), 12);
    let q1 = if is_aok(r.ver) {
        q0
    } else {
        after(d, q0, 4)
    };
    RecordView {
        mapid: if is_aok(r.ver) {
            r.mapid
        } else {
            read_u32(d, q0)
        },
        difficulty_raw: read_i32(d, q1),
        lockteams: read_bool(d, after(d, q1, 4), 4),
        ..r
    }
}

/// The game settings stage: map, difficulty, and the nine players' entries.
#[verifier::opaque]
pub open spec fn settings_entries(d: Seq<u8>, r: RecordView, trail: Seq<u8>) -> Entries {
    entries(d, entries_pos(d, r), 0, r.players, Seq::empty(), trail)
}

/// The record after the game settings stage.
#[verifier::opaque]
pub open spec fn st_settings(d: Seq<u8>, r: RecordView, trail: Seq<u8>) -> RecordView {
    RecordView { players: settings_entries(d, r, trail).players, ..with_settings(d, r) }
}

/// Reads one entry of the players' entries into a player and builds the
/// needle for the player's block; `None` where the name is not all there.
fn read_entry(h: &mut StreamCursor, p: &mut Player, trail: &Vec<u8>) -> (res: Option<Vec<u8>>)
    ensures
        opt_bytes(res) == needle_at(
            old(h)@.data(),
            entry_name_pos(old(h)@.data(), old(h)@.pos as int),
            trail@,
        ),
        final(p)@ == if res.is_some() {
            PlayerView {
                name_raw: read_str_l32(
                    old(h)@.data(),
                    entry_name_pos(old(h)@.data(), old(h)@.pos as int),
                ).text,
                ..entry_head(old(h)@.data(), old(h)@.pos as int, old(p)@)
            }
        } else {
            entry_head(old(h)@.data(), old(h)@.pos as int, old(p)@)
        },
        res.is_some() ==> final(h)@.pos == read_str_l32(
            old(h)@.data(),
            entry_name_pos(old(h)@.data(), old(h)@.pos as int),
        ).next,
        final(h)@ == old(h)@.at(final(h)@.pos as int),
        final(h)@.wf(),
{
    p.index = h.get_i32();
    p.playertype = h.get_i32();
    let needle = build_needle(h, trail);
    if needle.is_some() {
        p.name_raw = h.extract_str_l32();
    }
    needle
}

/// Reads the game settings and the players' entries, and builds a needle for
/// each player. Fails where a name is not all there.
#[verifier::loop_isolation(false)]
pub fn read_settings(h: &mut StreamCursor, r: &mut Record, trail: &Vec<u8>) -> (res: Result<
    Vec<Vec<u8>>,
    ParseError,
>)
    ensures
        final(r)@ == st_settings(old(h)@.data(), old(r)@, trail@),
        match res {
            Ok(needles) => settings_entries(old(h)@.data(), old(r)@, trail@).complete
                && bytes_views(needles@) == settings_entries(old(h)@.data(), old(r)@, trail@).needles
                && needles@.len() == 9,
            Err(e) => e == ParseError::Truncated && !settings_entries(
                old(h)@.data(),
                old(r)@,
                trail@,
            ).complete,
        },
        final(h)@ == old(h)@.at(final(h)@.pos as int),
        final(h)@.wf(),
{
    reveal(st_settings);
    reveal(settings_entries);
    let ghost d = h@.data();
    let ghost r0 = r@;
    h.seek(r.debug.settingspos);
    h.mov_by(4 + 8);
    if !ver_is_aok(r.ver) {
        r.mapid = h.get_u32();
    }
    r.difficulty_raw = h.get_i32();
    r.lockteams = h.get_bool(4);
    let ghost r1 = r@;
    let ghost q0 = h@.pos as int;
    assert(q0 == entries_pos(d, r0));
    assert(r1 == with_settings(d, r0));
    let mut needles: Vec<Vec<u8>> = Vec::new();
    assert(bytes_views(needles@) =~= Seq::empty());
    let mut i: usize = 0;
    while i < 9
        invariant
            i <= 9,
            h@.wf(),
            h@ == old(h)@.at(h@.pos as int),
            r@ == (RecordView { players: r@.players, ..r1 }),
            r@.players.len() == 9,
            needles@.len() == i,
            entries(d, h@.pos as int, i as nat, r@.players, bytes_views(needles@), trail@)
                == entries(d, q0, 0, r0.players, Seq::empty(), trail@),
        decreases 9 - i,
    {
        let ghost prev = r@.players;
        let ghost seen = bytes_views(needles@);
        let ghost q = h@.pos as int;
        match read_entry(h, &mut r.players[i], trail) {
            Some(needle) => {
                let ghost nv = needle@;
                needles.push(needle);
                assert(bytes_views(needles@) =~= seen.push(nv));
                assert(r@.players =~= prev.update(
                    i as int,
                    PlayerView {
                        name_raw: read_str_l32(d, entry_name_pos(d, q)).text,
                        ..entry_head(d, q, prev[i as int])
                    },
                ));
            },
            None => {
                assert(r@.players =~= prev.update(i as int, entry_head(d, q, prev[i as int])));
                return Err(ParseError::Truncated);
            },
        }
        i = i + 1;
    }
    Ok(needles)
}

/// The anchor before which the players' blocks end: the first of the
/// scenario, the victory conditions, the disabled techs and the game settings
/// that is not zero, or else the end of the header.
pub open spec fn search_anchor(len: int, dv: DebugView) -> int {
    if dv.scenariopos != 0 {
        dv.scenariopos as int
    } else if dv.victorypos != 0 {
        dv.victorypos as int
    } else if dv.disabledtechspos != 0 {
        dv.disabledtechspos as int
    } else if dv.settingspos != 0 {
        dv.settingspos as int
    } else {
        len
    }
}

/// Where the search for the players' blocks starts: behind the first name,
/// the part of the first block that holds no name, and the tiles.
pub open spec fn search_start(d: Seq<u8>, r: RecordView, total: u8, tiles: int) -> int {
    first_name_pos(d, r, total) + INIT_SKIP + tiles
}

/// Where the search for the players' blocks ends: every player's block takes
/// at least 1817 bytes before the anchor.
pub open spec fn search_end(d: Seq<u8>, r: RecordView, total: u8) -> int {
    search_anchor(d.len() as int, r.debug) - total * INIT_BLOCK_MIN
}

/// The number of a player as a place in the list of blocks, where it is one.
pub open spec fn block_place(pl: PlayerView) -> Option<int> {
    match pl.index {
        Some(idx) => if 0 <= idx <= 8 {
            Some(idx as int)
        } else {
            None
        },
        None => None,
    }
}

/// The player in a slot is searched for: it takes part, has a number from 0
/// to 8, and no block was found for that number yet. (A slot without a
/// needle is passed over.)
pub open spec fn wanted(pl: PlayerView, inits: Seq<Option<usize>>) -> bool {
    pl.isvalid() && match block_place(pl) {
        Some(idx) => inits[idx].is_none(),
        None => false,
    }
}

/// The blocks found for the players of the slots from `i` on, searching
/// forward from `start`: each block found moves the start to where it stands.
pub open spec fn find_inits(
    d: Seq<u8>,
    i: nat,
    start: int,
    end: int,
    players: Seq<PlayerView>,
    needles: Seq<Seq<u8>>,
    inits: Seq<Option<usize>>,
) -> Seq<Option<usize>>
    decreases 9 - i,
{
    if i >= 9 {
        inits
    } else if !wanted(players[i as int], inits) || i >= needles.len() {
        find_inits(d, i + 1, start, end, players, needles, inits)
    } else {
        match find_in(d, needles[i as int], start, end) {
            None => find_inits(d, i + 1, start, end, players, needles, inits),
            Some(pos) => find_inits(
                d,
                i + 1,
                pos,
                end,
                players,
                needles,
                inits.update(block_place(players[i as int]).unwrap(), Some(pos as usize)),
            ),
        }
    }
}

/// The record after the search for the players' blocks. Without the number
/// of players or the size of the map there is nothing to search.
#[verifier::opaque]
pub open spec fn st_find_inits(d: Seq<u8>, r: RecordView, needles: Seq<Seq<u8>>) -> Result<
    RecordView,
    ParseError,
> {
    match (r.totalplayers, r.mapx, r.mapy) {
        (Some(total), Some(x), Some(y)) => Ok(
            RecordView {
                debug: DebugView {
                    playerinitpos_by_idx: find_inits(
                        d,
                        1,
                        search_start(d, r, total, x * y),
                        search_end(d, r, total),
                        r.players,
                        needles,
                        r.debug.playerinitpos_by_idx,
                    ),
                    ..r.debug
                },
                ..r
            },
        ),
        _ => Err(ParseError::Truncated),
    }
}

/// A copy of a byte string.
fn copy_bytes(v: &Vec<u8>) -> (out: Vec<u8>)
    ensures
        out@ == v@,
{
    let mut out: Vec<u8> = Vec::new();
    let mut i: usize = 0;
    while i < v.len()
        invariant
            i <= v.len(),
            out@ == v@.subrange(0, i as int),
        decreases v.len() - i,
    {
        out.push(v[i]);
        i = i + 1;
        assert(out@ =~= v@.subrange(0, i as int));
    }
    assert(v@.subrange(0, v@.len() as int) =~= v@);
    out
}

/// Whether the player in slot `i` is searched for, and the place of its
/// block in the list.
fn wanted_place(r: &Record, i: usize) -> (res: Option<usize>)
    requires
        i < 9,
    ensures
        res.is_some() == wanted(r@.players[i as int], r@.debug.playerinitpos_by_idx),
        res matches Some(idx) ==> idx < 9 && block_place(r@.players[i as int]) == Some(idx as int),
{
    if !r.players[i].isvalid() {
        return None;
    }
    match r.players[i].index {
        Some(idx) => {
            if idx < 0 || idx > 8 {
                return None;
            }
            let place: usize = idx as usize;
            if r.debug.playerinitpos_by_idx[place].is_some() {
                return None;
            }
            Some(place)
        },
        None => None,
    }
}

/// Searches the header for the block of each player that takes part.
#[verifier::loop_isolation(false)]
pub fn find_player_inits(h: &mut StreamCursor, r: &mut Record, needles: &Vec<Vec<u8>>) -> (res:
    Result<(), ParseError>)
    ensures
        match st_find_inits(old(h)@.data(), old(r)@, bytes_views(needles@)) {
            Ok(v) => res.is_ok() && final(r)@ == v,
            Err(e) => res == Err::<(), ParseError>(e) && final(r)@ == old(r)@,
        },
        final(h)@ == old(h)@.at(final(h)@.pos as int),
{
    reveal(st_find_inits);
    let ghost d = h@.data();
    let ghost r0 = r@;
    let (total, x, y): (u8, i32, i32) = match (r.totalplayers, r.mapx, r.mapy) {
        (Some(t), Some(x), Some(y)) => (t, x, y),
        _ => {
            return Err(ParseError::Truncated);
        },
    };
    seek_first_name(h, r, total);
    assert(-0x8000_0000 * 0x8000_0000 <= x * y <= 0x8000_0000 * 0x8000_0000) by (nonlinear_arith)
        requires
            -0x8000_0000 <= x < 0x8000_0000,
            -0x8000_0000 <= y < 0x8000_0000,
    ;
    let len: usize = h.data_len();
    let from: i128 = h.tell() as i128 + INIT_SKIP as i128 + x as i128 * y as i128;
    let anchor: usize = if r.debug.scenariopos != 0 {
        r.debug.scenariopos
    } else if r.debug.victorypos != 0 {
        r.debug.victorypos
    } else if r.debug.disabledtechspos != 0 {
        r.debug.disabledtechspos
    } else if r.debug.settingspos != 0 {
        r.debug.settingspos
    } else {
        len
    };
    let to: i128 = anchor as i128 - total as i128 * INIT_BLOCK_MIN as i128;
    let ghost end = to as int;
    assert(end == search_end(d, r0, total));
    assert(from == search_start(d, r0, total, x * y));
    let mut start: i128 = from;
    let mut i: usize = 1;
    while i < 9
        invariant
            1 <= i <= 9,
            h@ == old(h)@.at(h@.pos as int),
            r@ == (RecordView {
                debug: DebugView {
                    playerinitpos_by_idx: r@.debug.playerinitpos_by_idx,
                    ..r0.debug
                },
                ..r0
            }),
            r@.debug.playerinitpos_by_idx.len() == 9,
            find_inits(
                d,
                i as nat,
                start as int,
                end,
                r0.players,
                bytes_views(needles@),
                r@.debug.playerinitpos_by_idx,
            ) == find_inits(
                d,
                1,
                from as int,
                end,
                r0.players,
                bytes_views(needles@),
                r0.debug.playerinitpos_by_idx,
            ),
        decreases 9 - i,
    {
        match wanted_place(r, i) {
            Some(place) => {
                if i < needles.len() && 0 <= start && start <= to && to <= len as i128 {
                    proof {
                        lemma_find_in_bounds(d, needles@[i as int]@, start as int, end);
                    }
                    match h.find(copy_bytes(&needles[i]), start as usize..to as usize) {
                        Some(pos) => {
                            r.debug.playerinitpos_by_idx[place] = Some(pos);
                            start = pos as i128;
                        },
                        None => {},
                    }
                }
            },
            None => {},
        }
        i = i + 1;
    }
    Ok(())
}

/// The dialect stores the version of the mod in a player's block.
pub open spec fn has_mod_version(ver: Option<Version>) -> bool {
    ver == Some(Version::UP15) || ver == Some(Version::MCP)
}

/// Where a player's block is read to, and whether it could be read that far.
pub struct InitRead {
    pub player: PlayerView,
    pub complete: bool,
}

/// The numbers that follow the name in a player's block, from `q` on: the
/// resources, the age and the population.
#[verifier::opaque]
pub open spec fn init_numbers(d: Seq<u8>, q: int, pl: PlayerView) -> (PlayerView, int) {
    let q2 = after(d, q, 4);
    let q3 = after(d, q2, 4);
    let q4 = after(d, q3, 4);
    let q5 = mv(d, after(d, q4, 4), 8);
    let q6 = mv(d, after(d, q5, 4), 16);
    let q7 = mv(d, after(d, q6, 4), 100);
    let q8 = mv(d, after(d, q7, 4), 8);
    (
        PlayerView {
            initfood: read_u32(d, q),
            initwood: read_u32(d, q2),
            initstone: read_u32(d, q3),
            initgold: read_u32(d, q4),
            initage_raw: read_u32(d, q5),
            initpop: read_u32(d, q6),
            initcivilian: read_u32(d, q7),
            initmilitary: read_u32(d, q8),
            ..pl
        },
        after(d, q8, 4),
    )
}

/// The first part of a player's block at `pos`: the name, which tells
/// whether the player is the one known by that name, and the numbers.
#[verifier::opaque]
pub open spec fn init_stats(d: Seq<u8>, pos: int, pl: PlayerView) -> (PlayerView, int) {
    let name = read_str_l16(d, sk(d, pos));
    init_numbers(
        d,
        mv(d, name.next, 6),
        PlayerView { ismainop: Some(name.text == pl.name_raw), ..pl },
    )
}

/// The place of a player in a player's block, from `p` on: the version of
/// the mod, in the dialects that have one, and the position on the map.
/// With it comes the position behind them.
#[verifier::opaque]
pub open spec fn init_spot(d: Seq<u8>, p: int, pl: PlayerView, ver: Option<Version>) -> (
    PlayerView,
    int,
) {
    let q1 = mv(
        d,
        p,
        if is_aok(ver) {
            592
        } else {
            628
        },
    );
    let q2 = if has_mod_version(ver) {
        mv(d, after(d, q1, 4), 164)
    } else {
        q1
    };
    let q3 = mv(d, q2, 1);
    let q4 = after(d, q3, 4);
    (
        PlayerView {
            modversion: if has_mod_version(ver) {
                read_u32(d, q1)
            } else {
                pl.modversion
            },
            initx: read_u32(d, q3),
            inity: read_u32(d, q4),
            ..pl
        },
        after(d, q4, 4),
    )
}

/// The civilization and the color in a player's block, behind the saved
/// views, which end at `q`.
pub open spec fn init_colors(d: Seq<u8>, q: int, pl: PlayerView) -> PlayerView {
    let q1 = mv(d, q, 5);
    PlayerView { civ_raw: read_u8(d, q1), colorid: read_u8(d, mv(d, after(d, q1, 1), 3)), ..pl }
}

/// The second part of a player's block, from `p` on: the position on the
/// map, the civilization and the color. After The Age of Kings the saved
/// views stand between them, and their number has to be there.
#[verifier::opaque]
pub open spec fn init_place(d: Seq<u8>, p: int, pl: PlayerView, ver: Option<Version>) -> InitRead {
    let spot = init_spot(d, p, pl, ver);
    if is_aok(ver) {
        InitRead { player: init_colors(d, spot.1, spot.0), complete: true }
    } else {
        match read_i32(d, spot.1) {
            None => InitRead { player: spot.0, complete: false },
            Some(views) => InitRead {
                player: init_colors(
                    d,
                    if views > 0 {
                        mv(d, spot.1 + 4, views * 8)
                    } else {
                        spot.1 + 4
                    },
                    spot.0,
                ),
                complete: true,
            },
        }
    }
}

/// A player's block at `pos`, read into the player `pl`.
pub open spec fn init_data(d: Seq<u8>, pos: int, pl: PlayerView, ver: Option<Version>) -> InitRead {
    let first = init_stats(d, pos, pl);
    init_place(d, first.1, first.0, ver)
}

/// The block found for a player, if the player takes part and one was found.
pub open spec fn block_of(pl: PlayerView, inits: Seq<Option<usize>>) -> Option<usize> {
    if pl.isvalid() {
        match block_place(pl) {
            Some(idx) => inits[idx],
            None => None,
        }
    } else {
        None
    }
}

/// The players after the blocks of the slots from `i` on were read, and the
/// error that ended it, if any. Every slot has to have a number.
pub open spec fn read_inits(d: Seq<u8>, i: nat, r: RecordView, players: Seq<PlayerView>) -> (
    Seq<PlayerView>,
    Option<ParseError>,
)
    decreases 9 - i,
{
    if i >= 9 {
        (players, None)
    } else if players[i as int].index.is_none() {
        (players, Some(ParseError::Truncated))
    } else {
        match block_of(players[i as int], r.debug.playerinitpos_by_idx) {
            None => read_inits(d, i + 1, r, players),
            Some(pos) => {
                let read = init_data(d, pos as int, players[i as int], r.ver);
                if read.complete {
                    read_inits(d, i + 1, r, players.update(i as int, read.player))
                } else {
                    (players.update(i as int, read.player), Some(ParseError::Truncated))
                }
            },
        }
    }
}

/// The record after the players' blocks were read.
#[verifier::opaque]
pub open spec fn st_inits(d: Seq<u8>, r: RecordView) -> RecordView {
    RecordView { players: read_inits(d, 0, r, r.players).0, ..r }
}

/// Reads the numbers that follow the name in a player's block.
fn read_init_numbers(h: &mut StreamCursor, p: &mut Player)
    ensures
        final(p)@ == init_numbers(old(h)@.data(), old(h)@.pos as int, old(p)@).0,
        final(h)@ == old(h)@.at(final(h)@.pos as int),
        final(h)@.pos == init_numbers(old(h)@.data(), old(h)@.pos as int, old(p)@).1,
        final(h)@.wf(),
{
    reveal(init_numbers);
    p.initfood = h.get_f32();
    p.initwood = h.get_f32();
    p.initstone = h.get_f32();
    p.initgold = h.get_f32();
    h.mov_by(8);
    p.initage_raw = h.get_f32();
    h.mov_by(4 * 4);
    p.initpop = h.get_f32();
    h.mov_by(4 * 25);
    p.initcivilian = h.get_f32();
    h.mov_by(4 * 2);
    p.initmilitary = h.get_f32();
}

/// Reads the first part of the block at `pos` into a player.
fn read_init_stats(h: &mut StreamCursor, p: &mut Player, pos: usize)
    ensures
        final(p)@ == init_stats(old(h)@.data(), pos as int, old(p)@).0,
        final(h)@ == old(h)@.at(final(h)@.pos as int),
        final(h)@.pos == init_stats(old(h)@.data(), pos as int, old(p)@).1,
        final(h)@.wf(),
{
    reveal(init_stats);
    h.seek(pos);
    let name = h.extract_str_l16();
    let same: bool = match (&name, &p.name_raw) {
        (Some(a), Some(b)) => same_bytes(a, b),
        (None, None) => true,
        _ => false,
    };
    h.mov_by(6);
    p.ismainop = Some(same);
    read_init_numbers(h, p);
}

/// Whether two byte strings are the same.
pub fn same_bytes(a: &Vec<u8>, b: &Vec<u8>) -> (res: bool)
    ensures
        res == (a@ == b@),
{
    if a.len() != b.len() {
        return false;
    }
    let mut i: usize = 0;
    while i < a.len()
        invariant
            i <= a.len(),
            a.len() == b.len(),
            forall|j: int| 0 <= j < i ==> a@[j] == b@[j],
        decreases a.len() - i,
    {
        if a[i] != b[i] {
            return false;
        }
        i = i + 1;
    }
    assert(a@ =~= b@);
    true
}

/// Reads the version of the mod and the position on the map into a player.
fn read_init_spot(h: &mut StreamCursor, p: &mut Player, ver: Option<Version>)
    requires
        old(h)@.wf(),
    ensures
        final(p)@ == init_spot(old(h)@.data(), old(h)@.pos as int, old(p)@, ver).0,
        final(h)@.pos == init_spot(old(h)@.data(), old(h)@.pos as int, old(p)@, ver).1,
        final(h)@ == old(h)@.at(final(h)@.pos as int),
        final(h)@.wf(),
{
    reveal(init_spot);
    let modded: bool = match ver {
        Some(Version::UP15) => true,
        Some(Version::MCP) => true,
        _ => false,
    };
    h.mov_by(756 - 41 * 4);
    if !ver_is_aok(ver) {
        h.mov_by(36);
    }
    if modded {
        p.modversion = h.get_f32();
        h.mov_by(4 * 6 + 4 * 7 + 4 * 28);
    }
    h.mov_by(1);
    p.initx = h.get_f32();
    p.inity = h.get_f32();
}

/// Reads the second part of a block into a player; false where the number
/// of saved views is not there.
fn read_init_place(h: &mut StreamCursor, p: &mut Player, ver: Option<Version>) -> (complete: bool)
    requires
        old(h)@.wf(),
    ensures
        final(p)@ == init_place(old(h)@.data(), old(h)@.pos as int, old(p)@, ver).player,
        complete == init_place(old(h)@.data(), old(h)@.pos as int, old(p)@, ver).complete,
        final(h)@ == old(h)@.at(final(h)@.pos as int),
        final(h)@.wf(),
{
    reveal(init_place);
    read_init_spot(h, p, ver);
    if !ver_is_aok(ver) {
        match h.get_i32() {
            Some(views) => {
                if views > 0 {
                    h.mov_by(views as i128 * 8);
                }
            },
            None => {
                return false;
            },
        }
    }
    h.mov_by(5);
    p.civ_raw = h.get_u8();
    h.mov_by(3);
    p.colorid = h.get_u8();
    true
}

/// The block found for the player in slot `i`, if the player takes part and
/// one was found.
fn block_for(r: &Record, i: usize) -> (res: Option<usize>)
    requires
        i < 9,
    ensures
        res == block_of(r@.players[i as int], r@.debug.playerinitpos_by_idx),
{
    if !r.players[i].isvalid() {
        return None;
    }
    match r.players[i].index {
        Some(idx) => {
            if idx < 0 || idx > 8 {
                None
            } else {
                r.debug.playerinitpos_by_idx[idx as usize]
            }
        },
        None => None,
    }
}

/// Reads the block of every player for whom one was found.
#[verifier::loop_isolation(false)]
pub fn read_player_inits(h: &mut StreamCursor, r: &mut Record) -> (res: Result<(), ParseError>)
    ensures
        final(r)@ == st_inits(old(h)@.data(), old(r)@),
        match read_inits(old(h)@.data(), 0, old(r)@, old(r)@.players).1 {
            Some(e) => res == Err::<(), ParseError>(e),
            None => res.is_ok(),
        },
        final(h)@ == old(h)@.at(final(h)@.pos as int),
{
    reveal(st_inits);
    let ghost d = h@.data();
    let ghost r0 = r@;
    let mut i: usize = 0;
    while i < 9
        invariant
            i <= 9,
            h@ == old(h)@.at(h@.pos as int),
            r@ == (RecordView { players: r@.players, ..r0 }),
            r@.players.len() == 9,
            read_inits(d, i as nat, r0, r@.players) == read_inits(d, 0, r0, r0.players),
        decreases 9 - i,
    {
        if r.players[i].index.is_none() {
            return Err(ParseError::Truncated);
        }
        match block_for(r, i) {
            Some(pos) => {
                let ghost prev = r@.players;
                let ghost read = init_data(d, pos as int, prev[i as int], r0.ver);
                let ver = r.ver;
                read_init_stats(h, &mut r.players[i], pos);
                let complete = read_init_place(h, &mut r.players[i], ver);
                assert(r@.players =~= prev.update(i as int, read.player));
                if !complete {
                    return Err(ParseError::Truncated);
                }
            },
            None => {},
        }
        i = i + 1;
    }
    Ok(())
}

/// Reading a block leaves a player's number and type as they are.
pub proof fn lemma_init_keeps_number(d: Seq<u8>, pos: int, pl: PlayerView, ver: Option<Version>)
    ensures
        init_data(d, pos, pl, ver).player.index == pl.index,
        init_data(d, pos, pl, ver).player.playertype == pl.playertype,
{
    reveal(init_numbers);
    reveal(init_stats);
    reveal(init_spot);
    reveal(init_place);
}

/// After the blocks were read, a player with init data is one that takes
/// part and for whose number a block was found. `players` are the players
/// when the slots below `i` have been read.
pub proof fn lemma_init_resolved(d: Seq<u8>, i: nat, r: RecordView, players: Seq<PlayerView>, s: int)
    requires
        players.len() == 9,
        0 <= s < 9,
        i <= s ==> players[s].ismainop.is_none(),
        i > s ==> (players[s].ismainop.is_some() ==> block_of(
            players[s],
            r.debug.playerinitpos_by_idx,
        ).is_some()),
    ensures
        read_inits(d, i, r, players).0.len() == 9,
        read_inits(d, i, r, players).0[s].ismainop.is_some() ==> block_of(
            read_inits(d, i, r, players).0[s],
            r.debug.playerinitpos_by_idx,
        ).is_some(),
    decreases 9 - i,
{
    if i < 9 && players[i as int].index.is_some() {
        match block_of(players[i as int], r.debug.playerinitpos_by_idx) {
            None => {
                lemma_init_resolved(d, i + 1, r, players, s);
            },
            Some(pos) => {
                let read = init_data(d, pos as int, players[i as int], r.ver);
                lemma_init_keeps_number(d, pos as int, players[i as int], r.ver);
                if read.complete {
                    lemma_init_resolved(d, i + 1, r, players.update(i as int, read.player), s);
                }
            },
        }
    }
}

/// In a record that held no init data before, every player that has some
/// afterwards takes part, and a block was found for its number.
pub proof fn lemma_init_blocks_found(d: Seq<u8>, r: RecordView)
    requires
        r.players.len() == 9,
        forall|s: int| 0 <= s < 9 ==> (#[trigger] r.players[s]).ismainop.is_none(),
    ensures
        st_inits(d, r).players.len() == 9,
        forall|s: int|
            0 <= s < 9 && (#[trigger] st_inits(d, r).players[s]).ismainop.is_some() ==> st_inits(
                d,
                r,
            ).players[s].isvalid() && block_of(
                st_inits(d, r).players[s],
                r.debug.playerinitpos_by_idx,
            ).is_some(),
{
    reveal(st_inits);
    assert forall|s: int|
        0 <= s < 9 && (#[trigger] st_inits(d, r).players[s]).ismainop.is_some() implies st_inits(
        d,
        r,
    ).players[s].isvalid() && block_of(
        st_inits(d, r).players[s],
        r.debug.playerinitpos_by_idx,
    ).is_some() by {
        lemma_init_resolved(d, 0, r, r.players, s);
    }
    lemma_init_resolved(d, 0, r, r.players, 0);
}

} // verus!
