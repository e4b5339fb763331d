//! What holds of every record that decoding hands out, whether decoding came
//! to its end or not.
use crate::anchors::{lemma_anchors_in_order, st_scenario, st_triggers, st_victory};
use crate::body_parser::{
    body_chat_ok, body_frame, lemma_body_chats_visible, lemma_body_frame,
    lemma_duration_is_sum, lemma_early_moves_ok, lemma_slot_with_index, op_at, op_effect,
    run_body, sync_total, BodyOpView,
};
use crate::bytes::{avail, find_in, le32, read_i32, read_str_l32, read_u32};
use crate::cursor::CursorView;
use crate::guess_winner::guessed;
use crate::guid::{guid_of, md5_hex};
use crate::header::{st_ai, st_map_data, st_map_size, st_map_tiles, st_replay, st_version};
use crate::lobby::{lobby_chat, lobby_chats, st_lobby};
use crate::parser::{
    chapters, container, parsed, st_preamble, walk_anchors, walk_body, walk_header, walk_map,
    walk_ops, walk_players,
};
use crate::parser_raw::parse_file;
use crate::players::{
    block_of, block_place, entries, entries_pos, entry_head, entry_name_pos, find_inits,
    lemma_init_blocks_found, needle_at, settings_entries, st_find_inits, st_inits, st_settings,
    trail_types, wanted,
};
use crate::record::{is_aok, ChatView, DebugView, PlayerView, RecordView};
use crate::teams::{ascending, lemma_matchup_sorted, st_teams, MAX_PLAYERS};
use vstd::prelude::*;

verus! {

/// A record is sound: its early moves are in order, each of its chats that
/// has a time has a text that is neither empty nor a hidden note, and its
/// matchup, if it has one, is in ascending order.
pub open spec fn sound(r: RecordView) -> bool {
    &&& r.debug.early_moves_ok()
    &&& forall|i: int|
        0 <= i < r.chat.len() && (#[trigger] r.chat[i]).time.is_some() ==> body_chat_ok(r.chat[i])
    &&& match r.matchup {
        Some(m) => ascending(m),
        None => true,
    }
}

/// What the header leaves as it is: the duration and the early moves. It
/// adds to the chat only entries without a time, and sets the matchup only
/// to one in ascending order.
pub open spec fn kept(a: RecordView, b: RecordView) -> bool {
    &&& b.duration == a.duration
    &&& b.debug.earlymovecount == a.debug.earlymovecount
    &&& b.debug.earlymovecmd == a.debug.earlymovecmd
    &&& b.debug.earlymovetime == a.debug.earlymovetime
    &&& a.chat.len() <= b.chat.len()
    &&& forall|i: int| 0 <= i < a.chat.len() ==> #[trigger] b.chat[i] == a.chat[i]
    &&& forall|i: int| a.chat.len() <= i < b.chat.len() ==> (#[trigger] b.chat[i]).time.is_none()
    &&& b.matchup == a.matchup || match b.matchup {
        Some(m) => ascending(m),
        None => false,
    }
}

/// What is kept of a sound record is sound.
pub proof fn lemma_kept_sound(a: RecordView, b: RecordView)
    requires
        sound(a),
        kept(a, b),
    ensures
        sound(b),
{
    assert forall|i: int| 0 <= i < b.chat.len() && (#[trigger] b.chat[i]).time.is_some() implies body_chat_ok(
        b.chat[i],
    ) by {
        if i < a.chat.len() {
            assert(b.chat[i] == a.chat[i]);
        }
    }
}

/// Keeping goes on from stage to stage.
pub proof fn lemma_kept_twice(a: RecordView, b: RecordView, c: RecordView)
    requires
        kept(a, b),
        kept(b, c),
    ensures
        kept(a, c),
{
    assert forall|i: int| 0 <= i < a.chat.len() implies #[trigger] c.chat[i] == a.chat[i] by {
        assert(c.chat[i] == b.chat[i]);
        assert(b.chat[i] == a.chat[i]);
    }
    assert forall|i: int| a.chat.len() <= i < c.chat.len() implies (#[trigger] c.chat[i]).time.is_none() by {
        if i < b.chat.len() {
            assert(c.chat[i] == b.chat[i]);
        }
    }
}

/// The lobby chat keeps the chat that was there and adds entries without a
/// time.
pub proof fn lemma_lobby_chats(d: Seq<u8>, p: int, n: nat, chat: Seq<ChatView>)
    ensures
        chat.len() <= lobby_chats(d, p, n, chat).0.len(),
        forall|i: int| 0 <= i < chat.len() ==> #[trigger] lobby_chats(d, p, n, chat).0[i] == chat[i],
        forall|i: int|
            chat.len() <= i < lobby_chats(d, p, n, chat).0.len() ==> (#[trigger] lobby_chats(
                d,
                p,
                n,
                chat,
            ).0[i]).time.is_none(),
    decreases n,
{
    if n > 0 {
        if read_i32(d, p) == Some(0i32) {
            lemma_lobby_chats(d, p + 4, (n - 1) as nat, chat);
        } else {
            let s = read_str_l32(d, p);
            let more = chat.push(lobby_chat(s.text));
            lemma_lobby_chats(d, s.next, (n - 1) as nat, more);
            let out = lobby_chats(d, p, n, chat).0;
            assert forall|i: int| 0 <= i < chat.len() implies #[trigger] out[i] == chat[i] by {
                assert(out[i] == more[i]);
            }
            assert forall|i: int| chat.len() <= i < out.len() implies (#[trigger] out[i]).time.is_none() by {
                if i < more.len() {
                    assert(out[i] == more[i]);
                }
            }
        }
    }
}

/// The header up to the players' blocks keeps what the header keeps.
pub proof fn lemma_walk_map_kept(d: Seq<u8>, p: int, r: RecordView, body_first: Option<u32>)
    ensures
        kept(r, walk_map(d, p, r, body_first).rec),
{
    reveal(walk_map);
    let w1 = st_version(d, p, r, body_first);
    assert(kept(r, w1.rec)) by {
        reveal(st_version);
    }
    if w1.err.is_none() {
        let w2 = st_ai(d, w1.pos, w1.rec);
        assert(kept(w1.rec, w2.rec)) by {
            reveal(st_ai);
        }
        lemma_kept_twice(r, w1.rec, w2.rec);
        if w2.err.is_none() {
            let w3 = st_replay(d, w2.pos, w2.rec);
            assert(kept(w2.rec, w3.rec)) by {
                reveal(st_replay);
            }
            lemma_kept_twice(r, w2.rec, w3.rec);
            let w4 = st_map_size(d, w3.pos, w3.rec);
            assert(kept(w3.rec, w4.rec)) by {
                reveal(st_map_size);
            }
            lemma_kept_twice(r, w3.rec, w4.rec);
            if w4.err.is_none() {
                let w5 = st_map_tiles(d, w4.pos, w4.rec);
                assert(kept(w4.rec, w5.rec)) by {
                    reveal(st_map_tiles);
                }
                lemma_kept_twice(r, w4.rec, w5.rec);
                if w5.err.is_none() {
                    let w6 = st_map_data(d, w5.pos, w5.rec);
                    assert(kept(w5.rec, w6.rec)) by {
                        reveal(st_map_data);
                    }
                    lemma_kept_twice(r, w5.rec, w6.rec);
                }
            }
        }
    }
}

/// The sections found by their anchors keep what the header keeps.
pub proof fn lemma_walk_anchors_kept(d: Seq<u8>, r: RecordView)
    ensures
        kept(r, walk_anchors(d, r).rec),
{
    reveal(walk_anchors);
    let w1 = st_triggers(d, r);
    assert(kept(r, w1.rec)) by {
        reveal(st_triggers);
    }
    if w1.err.is_none() {
        let w2 = st_lobby(d, w1.pos, w1.rec);
        assert(kept(w1.rec, w2.rec)) by {
            reveal(st_lobby);
            assert forall|q: int, n: nat| true implies kept(
                w1.rec,
                RecordView { chat: #[trigger] lobby_chats(d, q, n, w1.rec.chat).0, ..w1.rec },
            ) by {
                lemma_lobby_chats(d, q, n, w1.rec.chat);
            }
        }
        lemma_kept_twice(r, w1.rec, w2.rec);
        if w2.err.is_none() {
            let w3 = st_victory(d, w2.rec);
            assert(kept(w2.rec, w3.rec)) by {
                reveal(st_victory);
            }
            lemma_kept_twice(r, w2.rec, w3.rec);
            if w3.err.is_none() {
                let w4 = st_scenario(d, w3.rec);
                assert(kept(w3.rec, w4.rec)) by {
                    reveal(st_scenario);
                }
                lemma_kept_twice(r, w3.rec, w4.rec);
            }
        }
    }
}

/// The players' stages keep what the header keeps.
pub proof fn lemma_walk_players_kept(d: Seq<u8>, r: RecordView)
    ensures
        kept(r, walk_players(d, r).rec),
{
    reveal(walk_players);
    match trail_types(d, r) {
        Err(e) => {},
        Ok(trail) => {
            let r1 = st_settings(d, r, trail);
            assert(kept(r, r1)) by {
                reveal(st_settings);
            }
            if settings_entries(d, r, trail).complete {
                match st_find_inits(d, r1, settings_entries(d, r, trail).needles) {
                    Err(e) => {},
                    Ok(r2) => {
                        assert(kept(r1, r2)) by {
                            reveal(st_find_inits);
                        }
                        lemma_kept_twice(r, r1, r2);
                        let t = st_teams(d, r2);
                        assert(kept(r2, t.0)) by {
                            reveal(st_teams);
                            if t.1.is_none() {
                                lemma_matchup_sorted(d, r2);
                            }
                        }
                        lemma_kept_twice(r, r2, t.0);
                        if t.1.is_none() {
                            assert(kept(t.0, st_inits(d, t.0))) by {
                                reveal(st_inits);
                            }
                            lemma_kept_twice(r, t.0, st_inits(d, t.0));
                        }
                    },
                }
            }
        },
    }
}

/// The whole header keeps the duration and the early moves, adds to the chat
/// only entries without a time, and sets the matchup only to one in
/// ascending order.
pub proof fn lemma_walk_header_kept(d: Seq<u8>, p: int, r: RecordView, body_first: Option<u32>)
    ensures
        kept(r, walk_header(d, p, r, body_first).rec),
{
    reveal(walk_header);
    lemma_walk_map_kept(d, p, r, body_first);
    let w = walk_map(d, p, r, body_first);
    if w.err.is_none() {
        lemma_walk_anchors_kept(d, w.rec);
        let a = walk_anchors(d, w.rec);
        lemma_kept_twice(r, w.rec, a.rec);
        if a.err.is_none() {
            lemma_walk_players_kept(d, a.rec);
            lemma_kept_twice(r, a.rec, walk_players(d, a.rec).rec);
        }
    }
}

/// The operations of a body leave a sound record sound.
pub proof fn lemma_run_body_sound(d: Seq<u8>, p: int, r: RecordView)
    requires
        sound(r),
    ensures
        sound(run_body(d, p, r).0),
{
    lemma_early_moves_ok(d, p, r);
    lemma_body_chats_visible(d, p, r);
    lemma_body_frame(d, p, r);
    let out = run_body(d, p, r).0;
    assert forall|i: int| 0 <= i < out.chat.len() && (#[trigger] out.chat[i]).time.is_some() implies body_chat_ok(
        out.chat[i],
    ) by {
        if i < r.chat.len() {
            assert(out.chat.subrange(0, r.chat.len() as int)[i] == out.chat[i]);
        }
    }
}

/// The time that the time steps of the chapters add, as far as they are
/// applied.
pub open spec fn chapters_total(file: Seq<u8>, start: int, end: int, r: RecordView) -> int
    decreases file.len() - end,
{
    if !(0 <= start <= end <= file.len()) {
        0
    } else {
        let ran = run_body(file.subrange(start, end), 0, r);
        let here = sync_total(file.subrange(start, end), 0, r);
        if ran.1.is_some() || end >= file.len() || !avail(file, end, 8) {
            here
        } else {
            let next_end = if le32(file, end + 4) == 0 {
                file.len() as int
            } else {
                le32(file, end + 4)
            };
            if next_end <= end || next_end > file.len() {
                here
            } else {
                here + chapters_total(file, le32(file, end), next_end, ran.0)
            }
        }
    }
}

/// Chapters leave a sound record sound, and add to the duration the time of
/// the time steps that were applied.
pub proof fn lemma_chapters(file: Seq<u8>, start: int, end: int, r: RecordView)
    ensures
        sound(r) ==> sound(chapters(file, start, end, r).rec),
        chapters(file, start, end, r).rec.duration == r.duration + chapters_total(
            file,
            start,
            end,
            r,
        ),
        chapters_total(file, start, end, r) >= 0,
    decreases file.len() - end,
{
    if 0 <= start <= end <= file.len() {
        let d = file.subrange(start, end);
        let ran = run_body(d, 0, r);
        lemma_duration_is_sum(d, 0, r);
        if sound(r) {
            lemma_run_body_sound(d, 0, r);
        }
        if !(ran.1.is_some() || end >= file.len() || !avail(file, end, 8)) {
            let next_end = if le32(file, end + 4) == 0 {
                file.len() as int
            } else {
                le32(file, end + 4)
            };
            if !(next_end <= end || next_end > file.len()) {
                lemma_chapters(file, le32(file, end), next_end, ran.0);
            }
        }
    }
}

/// The time that the time steps of a body add behind its preamble, as far as
/// they are applied.
pub open spec fn ops_total(b: CursorView, p: int, r: RecordView) -> int {
    if b.src.len() < 8 {
        0
    } else if is_aok(r.ver) || le32(b.src, 4) == 0 {
        sync_total(b.data(), p, r)
    } else {
        chapters_total(b.src, b.offset + p, le32(b.src, 4), r)
    }
}

/// The body leaves a sound record sound. Its duration afterwards is the
/// duration before plus the time of the time steps that were applied, so it
/// never goes down.
pub proof fn lemma_walk_ops(b: CursorView, p: int, r: RecordView)
    ensures
        sound(r) ==> sound(walk_ops(b, p, r).rec),
        walk_ops(b, p, r).rec.duration == r.duration + ops_total(b, p, r),
        ops_total(b, p, r) >= 0,
{
    reveal(walk_ops);
    if b.src.len() >= 8 {
        if is_aok(r.ver) || le32(b.src, 4) == 0 {
            lemma_duration_is_sum(b.data(), p, r);
            if sound(r) {
                lemma_run_body_sound(b.data(), p, r);
            }
        } else {
            lemma_chapters(b.src, b.offset + p, le32(b.src, 4), r);
        }
    }
}

/// The whole body leaves a sound record sound and never takes from the
/// duration.
pub proof fn lemma_walk_body(b: CursorView, r: RecordView)
    ensures
        sound(r) ==> sound(walk_body(b, r).rec),
        walk_body(b, r).rec.duration >= r.duration,
{
    reveal(walk_body);
    reveal(st_preamble);
    let w = st_preamble(b.data(), b.pos as int, r);
    if w.err.is_none() {
        lemma_walk_ops(b.at(w.pos), w.pos, w.rec);
    }
}

/// Decoding leaves a sound record sound and never takes from the duration,
/// whether it comes to its end or not.
pub proof fn lemma_parsed_sound(
    header: Seq<u8>,
    p: int,
    body: CursorView,
    md5: Seq<char>,
    r: RecordView,
)
    ensures
        sound(r) ==> sound(parsed(header, p, body, md5, r).rec),
        parsed(header, p, body, md5, r).rec.duration >= r.duration,
{
    reveal(parsed);
    let r0 = RecordView { md5: Some(md5), ..r };
    let first = read_u32(body.data(), body.pos as int);
    let h = walk_header(header, p, r0, first);
    lemma_walk_header_kept(header, p, r0, first);
    if sound(r) {
        lemma_kept_sound(r0, h.rec);
    }
    if h.err.is_none() {
        lemma_walk_body(body, h.rec);
        let b = walk_body(body, h.rec);
        if b.err.is_none() {
            let with_guid = RecordView { guid: Some(guid_of(b.rec)), ..b.rec };
            assert(guessed(with_guid).chat == b.rec.chat);
        }
    }
}

/// Whatever the file, the record that decoding hands out is sound: as many
/// early moves as times and as counted, five at most, nineteen bytes each;
/// no chat with a time whose text is empty or a hidden note; a matchup in
/// ascending order.
pub proof fn lemma_parse_file_sound(file: Seq<u8>, filename: Seq<char>, lastmod: u64)
    ensures
        sound(parse_file(file, filename, lastmod).rec),
{
    let r0 = RecordView::empty(filename, file.len() as usize, lastmod as u128);
    assert(sound(r0));
    match container(file) {
        Err(e) => {},
        Ok(c) => {
            lemma_parsed_sound(
                c.header,
                0,
                CursorView { src: file, offset: c.body_start as nat, pos: 0 },
                md5_hex(file),
                r0,
            );
        },
    }
}

/// No player has init data yet; there are nine players and nine places for
/// blocks.
pub open spec fn unread(r: RecordView) -> bool {
    &&& r.players.len() == 9
    &&& r.debug.playerinitpos_by_idx.len() == 9
    &&& forall|s: int| 0 <= s < 9 ==> (#[trigger] r.players[s]).ismainop.is_none()
}

/// Every player that has init data takes part, and a block was found for its
/// number.
pub open spec fn inits_found(r: RecordView) -> bool {
    &&& r.players.len() == 9
    &&& forall|s: int|
        0 <= s < 9 && (#[trigger] r.players[s]).ismainop.is_some() ==> r.players[s].isvalid()
            && block_of(r.players[s], r.debug.playerinitpos_by_idx).is_some()
}

/// The sections of the header lie in order: the scenario, the victory
/// conditions, the disabled techs, the game settings, the triggers.
pub open spec fn anchors_ordered(dv: DebugView) -> bool {
    dv.scenariopos < dv.victorypos < dv.disabledtechspos < dv.settingspos < dv.triggerpos
}

/// What holds of a record whose header was read to the end: the sections
/// lie in order, there are nine players at most, the matchup is there, and
/// every player with init data has a block.
pub open spec fn header_read(r: RecordView) -> bool {
    &&& anchors_ordered(r.debug)
    &&& match r.totalplayers {
        Some(total) => total <= MAX_PLAYERS,
        None => false,
    }
    &&& r.matchup.is_some()
    &&& inits_found(r)
}

/// Two lists of players agree on who the players are: on the numbers, the
/// types and on whether each was the one known by its name.
pub open spec fn same_players(a: Seq<PlayerView>, b: Seq<PlayerView>) -> bool {
    &&& a.len() == b.len()
    &&& forall|s: int|
        0 <= s < a.len() ==> (#[trigger] b[s]).index == a[s].index && b[s].playertype
            == a[s].playertype && b[s].ismainop == a[s].ismainop
}

/// The players' entries of the game settings leave the init data alone.
pub proof fn lemma_entries_unread(
    d: Seq<u8>,
    p: int,
    i: nat,
    players: Seq<PlayerView>,
    needles: Seq<Seq<u8>>,
    trail: Seq<u8>,
)
    requires
        players.len() == 9,
        forall|s: int| 0 <= s < 9 ==> (#[trigger] players[s]).ismainop.is_none(),
    ensures
        entries(d, p, i, players, needles, trail).players.len() == 9,
        forall|s: int|
            0 <= s < 9 ==> (#[trigger] entries(
                d,
                p,
                i,
                players,
                needles,
                trail,
            ).players[s]).ismainop.is_none(),
    decreases 9 - i,
{
    if i < 9 {
        let head = entry_head(d, p, players[i as int]);
        let q = entry_name_pos(d, p);
        match needle_at(d, q, trail) {
            None => {},
            Some(needle) => {
                let name = read_str_l32(d, q);
                lemma_entries_unread(
                    d,
                    name.next,
                    i + 1,
                    players.update(i as int, PlayerView { name_raw: name.text, ..head }),
                    needles.push(needle),
                    trail,
                );
            },
        }
    }
}

/// The search for the players' blocks keeps nine places for blocks.
pub proof fn lemma_find_inits_len(
    d: Seq<u8>,
    i: nat,
    start: int,
    end: int,
    players: Seq<PlayerView>,
    needles: Seq<Seq<u8>>,
    inits: Seq<Option<usize>>,
)
    requires
        inits.len() == 9,
    ensures
        find_inits(d, i, start, end, players, needles, inits).len() == 9,
    decreases 9 - i,
{
    if i < 9 {
        if !wanted(players[i as int], inits) || i >= needles.len() {
            lemma_find_inits_len(d, i + 1, start, end, players, needles, inits);
        } else {
            match find_in(d, needles[i as int], start, end) {
                None => {
                    lemma_find_inits_len(d, i + 1, start, end, players, needles, inits);
                },
                Some(pos) => {
                    lemma_find_inits_len(
                        d,
                        i + 1,
                        pos,
                        end,
                        players,
                        needles,
                        inits.update(block_place(players[i as int]).unwrap(), Some(pos as usize)),
                    );
                },
            }
        }
    }
}

/// The header up to the players' blocks leaves the players and the anchors
/// alone.
pub proof fn lemma_walk_map_players(d: Seq<u8>, p: int, r: RecordView, body_first: Option<u32>)
    ensures
        walk_map(d, p, r, body_first).rec.players == r.players,
        walk_map(d, p, r, body_first).rec.debug.playerinitpos_by_idx
            == r.debug.playerinitpos_by_idx,
{
    reveal(walk_map);
    let w1 = st_version(d, p, r, body_first);
    assert(w1.rec.players == r.players && w1.rec.debug.playerinitpos_by_idx
        == r.debug.playerinitpos_by_idx) by {
        reveal(st_version);
    }
    let w2 = st_ai(d, w1.pos, w1.rec);
    assert(w2.rec.players == w1.rec.players && w2.rec.debug.playerinitpos_by_idx
        == w1.rec.debug.playerinitpos_by_idx) by {
        reveal(st_ai);
    }
    let w3 = st_replay(d, w2.pos, w2.rec);
    assert(w3.rec.players == w2.rec.players && w3.rec.debug.playerinitpos_by_idx
        == w2.rec.debug.playerinitpos_by_idx) by {
        reveal(st_replay);
    }
    let w4 = st_map_size(d, w3.pos, w3.rec);
    assert(w4.rec.players == w3.rec.players && w4.rec.debug.playerinitpos_by_idx
        == w3.rec.debug.playerinitpos_by_idx) by {
        reveal(st_map_size);
    }
    let w5 = st_map_tiles(d, w4.pos, w4.rec);
    assert(w5.rec.players == w4.rec.players && w5.rec.debug.playerinitpos_by_idx
        == w4.rec.debug.playerinitpos_by_idx) by {
        reveal(st_map_tiles);
    }
    let w6 = st_map_data(d, w5.pos, w5.rec);
    assert(w6.rec.players == w5.rec.players && w6.rec.debug.playerinitpos_by_idx
        == w5.rec.debug.playerinitpos_by_idx) by {
        reveal(st_map_data);
    }
}

/// The sections found by their anchors leave the init data alone, and lie
/// in order where all were found.
pub proof fn lemma_walk_anchors_order(d: Seq<u8>, r: RecordView)
    requires
        unread(r),
    ensures
        unread(walk_anchors(d, r).rec),
        walk_anchors(d, r).err.is_none() ==> anchors_ordered(walk_anchors(d, r).rec.debug),
{
    reveal(walk_anchors);
    let w1 = st_triggers(d, r);
    assert(unread(w1.rec)) by {
        reveal(st_triggers);
    }
    if w1.err.is_none() {
        let w2 = st_lobby(d, w1.pos, w1.rec);
        assert(unread(w2.rec) && w2.rec.debug == w1.rec.debug) by {
            reveal(st_lobby);
        }
        if w2.err.is_none() {
            let w3 = st_victory(d, w2.rec);
            assert(unread(w3.rec)) by {
                reveal(st_victory);
            }
            if w3.err.is_none() {
                let w4 = st_scenario(d, w3.rec);
                assert(unread(w4.rec)) by {
                    reveal(st_scenario);
                }
                if w4.err.is_none() {
                    lemma_anchors_in_order(d, w2.rec);
                }
            }
        }
    }
}

/// Where the players' stages come to their end, the header is read: nine
/// players at most, a matchup, and a block for every player with init data.
pub proof fn lemma_walk_players_read(d: Seq<u8>, r: RecordView)
    requires
        unread(r),
        anchors_ordered(r.debug),
    ensures
        walk_players(d, r).err.is_none() ==> header_read(walk_players(d, r).rec),
{
    reveal(walk_players);
    match trail_types(d, r) {
        Err(e) => {},
        Ok(trail) => {
            let found = settings_entries(d, r, trail);
            let r1 = st_settings(d, r, trail);
            assert(unread(r1) && r1.debug == r.debug) by {
                reveal(st_settings);
                reveal(settings_entries);
                lemma_entries_unread(
                    d,
                    entries_pos(d, r),
                    0,
                    r.players,
                    Seq::empty(),
                    trail,
                );
            }
            if found.complete {
                match st_find_inits(d, r1, found.needles) {
                    Err(e) => {},
                    Ok(r2) => {
                        assert(unread(r2) && anchors_ordered(r2.debug)) by {
                            reveal(st_find_inits);
                            assert forall|start: int, end: int| true implies (#[trigger] find_inits(
                                d,
                                1,
                                start,
                                end,
                                r1.players,
                                found.needles,
                                r1.debug.playerinitpos_by_idx,
                            )).len() == 9 by {
                                lemma_find_inits_len(
                                    d,
                                    1,
                                    start,
                                    end,
                                    r1.players,
                                    found.needles,
                                    r1.debug.playerinitpos_by_idx,
                                );
                            }
                        }
                        let t = st_teams(d, r2);
                        if t.1.is_none() {
                            assert(unread(t.0) && t.0.debug == r2.debug && t.0.matchup.is_some()
                                && t.0.totalplayers == r2.totalplayers && (match t.0.totalplayers {
                                Some(total) => total <= MAX_PLAYERS,
                                None => false,
                            })) by {
                                reveal(st_teams);
                            }
                            let r4 = st_inits(d, t.0);
                            lemma_init_blocks_found(d, t.0);
                            assert(r4.debug == t.0.debug && r4.matchup == t.0.matchup
                                && r4.totalplayers == t.0.totalplayers) by {
                                reveal(st_inits);
                            }
                        }
                    },
                }
            }
        },
    }
}

/// Where the header is read to its end from a record without init data, the
/// sections lie in order, there are nine players at most, the matchup is
/// there, and every player with init data has a block.
pub proof fn lemma_walk_header_read(d: Seq<u8>, p: int, r: RecordView, body_first: Option<u32>)
    requires
        unread(r),
    ensures
        walk_header(d, p, r, body_first).err.is_none() ==> header_read(
            walk_header(d, p, r, body_first).rec,
        ),
{
    reveal(walk_header);
    lemma_walk_map_players(d, p, r, body_first);
    let w = walk_map(d, p, r, body_first);
    if w.err.is_none() {
        lemma_walk_anchors_order(d, w.rec);
        let a = walk_anchors(d, w.rec);
        if a.err.is_none() {
            lemma_walk_players_read(d, a.rec);
        }
    }
}

/// An operation of the body leaves the players who they are.
pub proof fn lemma_op_same_players(r: RecordView, op: BodyOpView)
    ensures
        op_effect(r, op) matches Ok(r2) ==> same_players(r.players, r2.players),
{
    if let BodyOpView::Research { index, tech } = op {
        lemma_slot_with_index(r.players, index as i32, 0);
    }
}

/// The operations of a body leave the players who they are.
pub proof fn lemma_run_body_same_players(d: Seq<u8>, p: int, r: RecordView)
    ensures
        same_players(r.players, run_body(d, p, r).0.players),
    decreases d.len() - p,
{
    let o = op_at(d, p, r.ver);
    if !(o.op is End) {
        lemma_op_same_players(r, o.op);
        match op_effect(r, o.op) {
            Err(e) => {},
            Ok(r2) => {
                if o.err.is_none() && p < o.next <= d.len() {
                    lemma_run_body_same_players(d, o.next, r2);
                    let out = run_body(d, o.next, r2).0;
                    assert forall|s: int| 0 <= s < r.players.len() implies (#[trigger] out.players[s]).index
                        == r.players[s].index && out.players[s].playertype
                        == r.players[s].playertype && out.players[s].ismainop
                        == r.players[s].ismainop by {
                        assert(r2.players[s].index == r.players[s].index);
                    }
                }
            },
        }
    }
}

/// What is left of a read header when only the body's part of a record
/// changes and the players stay who they are.
pub proof fn lemma_header_read_kept(a: RecordView, b: RecordView)
    requires
        header_read(a),
        body_frame(a, b),
        same_players(a.players, b.players),
    ensures
        header_read(b),
{
    assert forall|s: int| 0 <= s < 9 && (#[trigger] b.players[s]).ismainop.is_some() implies b.players[s].isvalid()
        && block_of(b.players[s], b.debug.playerinitpos_by_idx).is_some() by {
        assert(a.players[s].ismainop.is_some());
    }
}

/// The operations of a body leave a read header read.
pub proof fn lemma_run_body_read(d: Seq<u8>, p: int, r: RecordView)
    requires
        header_read(r),
    ensures
        header_read(run_body(d, p, r).0),
{
    lemma_body_frame(d, p, r);
    lemma_run_body_same_players(d, p, r);
    lemma_header_read_kept(r, run_body(d, p, r).0);
}

/// Chapters leave a read header read.
pub proof fn lemma_chapters_read(file: Seq<u8>, start: int, end: int, r: RecordView)
    requires
        header_read(r),
    ensures
        header_read(chapters(file, start, end, r).rec),
    decreases file.len() - end,
{
    if 0 <= start <= end <= file.len() {
        let ran = run_body(file.subrange(start, end), 0, r);
        lemma_run_body_read(file.subrange(start, end), 0, r);
        if !(ran.1.is_some() || end >= file.len() || !avail(file, end, 8)) {
            let next_end = if le32(file, end + 4) == 0 {
                file.len() as int
            } else {
                le32(file, end + 4)
            };
            if !(next_end <= end || next_end > file.len()) {
                lemma_chapters_read(file, le32(file, end), next_end, ran.0);
            }
        }
    }
}

/// The whole body leaves a read header read.
pub proof fn lemma_walk_body_read(b: CursorView, r: RecordView)
    requires
        header_read(r),
    ensures
        header_read(walk_body(b, r).rec),
{
    reveal(walk_body);
    reveal(st_preamble);
    reveal(walk_ops);
    let w = st_preamble(b.data(), b.pos as int, r);
    if w.err.is_none() {
        assert(header_read(w.rec));
        let c = b.at(w.pos);
        if c.src.len() >= 8 {
            if is_aok(w.rec.ver) || le32(c.src, 4) == 0 {
                lemma_run_body_read(c.data(), w.pos, w.rec);
            } else {
                lemma_chapters_read(c.src, c.offset + w.pos, le32(c.src, 4), w.rec);
            }
        }
    }
}

/// What holds of a record that decoding came to the end of: the header was
/// read, and the digest of the file and the fingerprint are there.
pub open spec fn decoded(r: RecordView) -> bool {
    header_read(r) && r.md5.is_some() && r.guid.is_some()
}

/// Where a file is decoded to its end, the sections of its header lie in
/// order, it has nine players at most, its matchup, the digest of the file
/// and the fingerprint are there, and every player with init data takes part
/// and has a block.
pub proof fn lemma_parse_file_decoded(file: Seq<u8>, filename: Seq<char>, lastmod: u64)
    requires
        parse_file(file, filename, lastmod).err.is_none(),
    ensures
        decoded(parse_file(file, filename, lastmod).rec),
{
    reveal(parsed);
    let r0 = RecordView::empty(filename, file.len() as usize, lastmod as u128);
    match container(file) {
        Err(e) => {},
        Ok(c) => {
            let body = CursorView { src: file, offset: c.body_start as nat, pos: 0 };
            let r1 = RecordView { md5: Some(md5_hex(file)), ..r0 };
            assert(unread(r1));
            let first = read_u32(body.data(), body.pos as int);
            let h = walk_header(c.header, 0, r1, first);
            lemma_walk_header_read(c.header, 0, r1, first);
            lemma_walk_header_md5(c.header, 0, r1, first);
            lemma_walk_body_read(body, h.rec);
            lemma_walk_body_md5(body, h.rec);
            let b = walk_body(body, h.rec);
            let with_guid = RecordView { guid: Some(guid_of(b.rec)), ..b.rec };
            let out = guessed(with_guid);
            assert(same_players(with_guid.players, out.players));
            assert(out.debug == b.rec.debug);
            assert forall|s: int| 0 <= s < 9 && (#[trigger] out.players[s]).ismainop.is_some() implies out.players[s].isvalid()
                && block_of(out.players[s], out.debug.playerinitpos_by_idx).is_some() by {
                assert(b.rec.players[s].ismainop.is_some());
            }
        },
    }
}

/// The header leaves the digest of the file alone.
pub proof fn lemma_walk_header_md5(d: Seq<u8>, p: int, r: RecordView, body_first: Option<u32>)
    ensures
        walk_header(d, p, r, body_first).rec.md5 == r.md5,
{
    reveal(walk_header);
    reveal(walk_map);
    reveal(walk_anchors);
    reveal(walk_players);
    let w1 = st_version(d, p, r, body_first);
    assert(w1.rec.md5 == r.md5) by {
        reveal(st_version);
    }
    let w2 = st_ai(d, w1.pos, w1.rec);
    assert(w2.rec.md5 == w1.rec.md5) by {
        reveal(st_ai);
    }
    let w3 = st_replay(d, w2.pos, w2.rec);
    assert(w3.rec.md5 == w2.rec.md5) by {
        reveal(st_replay);
    }
    let w4 = st_map_size(d, w3.pos, w3.rec);
    assert(w4.rec.md5 == w3.rec.md5) by {
        reveal(st_map_size);
    }
    let w5 = st_map_tiles(d, w4.pos, w4.rec);
    assert(w5.rec.md5 == w4.rec.md5) by {
        reveal(st_map_tiles);
    }
    let w6 = st_map_data(d, w5.pos, w5.rec);
    assert(w6.rec.md5 == w5.rec.md5) by {
        reveal(st_map_data);
    }
    let a1 = st_triggers(d, w6.rec);
    assert(a1.rec.md5 == w6.rec.md5) by {
        reveal(st_triggers);
    }
    let a2 = st_lobby(d, a1.pos, a1.rec);
    assert(a2.rec.md5 == a1.rec.md5) by {
        reveal(st_lobby);
    }
    let a3 = st_victory(d, a2.rec);
    assert(a3.rec.md5 == a2.rec.md5) by {
        reveal(st_victory);
    }
    let a4 = st_scenario(d, a3.rec);
    assert(a4.rec.md5 == a3.rec.md5) by {
        reveal(st_scenario);
    }
    assert forall|x: RecordView, trail: Seq<u8>| true implies (#[trigger] st_settings(d, x, trail)).md5
        == x.md5 by {
        reveal(st_settings);
    }
    assert forall|x: RecordView, needles: Seq<Seq<u8>>| true implies (match #[trigger] st_find_inits(
        d,
        x,
        needles,
    ) {
        Ok(y) => y.md5 == x.md5,
        Err(e) => true,
    }) by {
        reveal(st_find_inits);
    }
    assert forall|x: RecordView| true implies (#[trigger] st_teams(d, x)).0.md5 == x.md5 by {
        reveal(st_teams);
    }
    assert forall|x: RecordView| true implies (#[trigger] st_inits(d, x)).md5 == x.md5 by {
        reveal(st_inits);
    }
}

/// The body leaves the digest of the file alone.
pub proof fn lemma_walk_body_md5(b: CursorView, r: RecordView)
    ensures
        walk_body(b, r).rec.md5 == r.md5,
{
    reveal(walk_body);
    reveal(st_preamble);
    reveal(walk_ops);
    let w = st_preamble(b.data(), b.pos as int, r);
    if w.err.is_none() {
        let c = b.at(w.pos);
        if c.src.len() >= 8 {
            if is_aok(w.rec.ver) || le32(c.src, 4) == 0 {
                lemma_body_frame(c.data(), w.pos, w.rec);
            } else {
                lemma_chapters_md5(c.src, c.offset + w.pos, le32(c.src, 4), w.rec);
            }
        }
    }
}

/// Chapters leave the digest of the file alone.
pub proof fn lemma_chapters_md5(file: Seq<u8>, start: int, end: int, r: RecordView)
    ensures
        chapters(file, start, end, r).rec.md5 == r.md5,
    decreases file.len() - end,
{
    if 0 <= start <= end <= file.len() {
        let ran = run_body(file.subrange(start, end), 0, r);
        lemma_body_frame(file.subrange(start, end), 0, r);
        if !(ran.1.is_some() || end >= file.len() || !avail(file, end, 8)) {
            let next_end = if le32(file, end + 4) == 0 {
                file.len() as int
            } else {
                le32(file, end + 4)
            };
            if !(next_end <= end || next_end > file.len()) {
                lemma_chapters_md5(file, le32(file, end), next_end, ran.0);
            }
        }
    }
}

} // verus!
