//! The lobby: what the host chose before the game, and what was said there.
//! It follows the triggers in the header.
use crate::bytes::{read_bool, read_i32, read_str_l32, read_u32, read_u8};
use crate::cursor::StreamCursor;
use crate::error::ParseError;
use crate::header::{after, done, fail, mv, rounds, walked, Walk};
use crate::record::{is_aok, ver_is_aok, Chat, ChatView, PlayerView, Record, RecordView};
use vstd::prelude::*;

verus! {

/// A population limit up to this is stored in units of 25.
pub const POP_UNIT_MAX: u32 = 40;

/// The population limit that a stored value stands for.
pub open spec fn pop_limit(stored: u32) -> u32 {
    if stored <= POP_UNIT_MAX {
        (stored * 25) as u32
    } else {
        stored
    }
}

/// The players with the team numbers of the lobby: one byte at `p` for each
/// of the slots 1 to 8. Slot 0 has none.
pub open spec fn with_teams(d: Seq<u8>, p: int, players: Seq<PlayerView>) -> Seq<PlayerView> {
    Seq::new(
        players.len(),
        |i: int|
            if 1 <= i <= 8 {
                PlayerView { teamid: read_u8(d, p + i - 1), ..players[i] }
            } else {
                players[i]
            },
    )
}

/// A chat of the lobby: it has no time.
pub open spec fn lobby_chat(text: Option<Seq<u8>>) -> ChatView {
    ChatView { time: None, player: None, content_raw: text, content: None }
}

/// The chat after `n` entries of the lobby chat were read from `p`, and the
/// position after them. An entry is a string with a 32-bit length; one whose
/// length is zero is passed over, every other is kept, with no text where it
/// cannot be read.
pub open spec fn lobby_chats(d: Seq<u8>, p: int, n: nat, chat: Seq<ChatView>) -> (Seq<ChatView>, int)
    decreases n,
{
    if n == 0 {
        (chat, p)
    } else if read_i32(d, p) == Some(0i32) {
        lobby_chats(d, p + 4, (n - 1) as nat, chat)
    } else {
        let s = read_str_l32(d, p);
        lobby_chats(d, s.next, (n - 1) as nat, chat.push(lobby_chat(s.text)))
    }
}

/// The lobby stage.
#[verifier::opaque]
pub open spec fn st_lobby(d: Seq<u8>, p: int, r: RecordView) -> Walk {
    let q1 = mv(d, mv(d, p, 8), 1);
    let q2 = mv(d, after(d, q1, 4), 4);
    let q3 = after(d, q2, 4);
    let q4 = after(d, q3, 4);
    let r1 = RecordView {
        players: with_teams(d, p, r.players),
        revealmap_raw: read_i32(d, q1),
        mapsize_raw: read_u32(d, q2),
        poplimit: read_u32(d, q3),
        ..r
    };
    match read_u32(d, q3) {
        None => fail(r1, ParseError::Truncated),
        Some(stored) => {
            let r2 = RecordView { poplimit: Some(pop_limit(stored)), ..r1 };
            if is_aok(r.ver) {
                done(r2, q4)
            } else {
                let q5 = after(d, q4, 1);
                let q6 = after(d, q5, 1);
                let r3 = RecordView {
                    gametype_raw: read_u8(d, q4),
                    lockdiplomacy: read_bool(d, q5, 1),
                    ..r2
                };
                match read_i32(d, q6) {
                    None => fail(r3, ParseError::Truncated),
                    Some(n) => {
                        let all = lobby_chats(d, q6 + 4, rounds(n as int), r3.chat);
                        done(RecordView { chat: all.0, ..r3 }, all.1)
                    },
                }
            }
        },
    }
}

/// Reads the team numbers of the eight player slots.
#[verifier::loop_isolation(false)]
fn read_teams(h: &mut StreamCursor, r: &mut Record)
    requires
        old(h)@.wf(),
    ensures
        final(h)@ == old(h)@.at(mv(old(h)@.data(), old(h)@.pos as int, 8)),
        final(h)@.wf(),
        final(r)@ == (RecordView {
            players: with_teams(old(h)@.data(), old(h)@.pos as int, old(r)@.players),
            ..old(r)@
        }),
{
    let ghost d = h@.data();
    let ghost p = h@.pos as int;
    let ghost ps = r@.players;
    let mut i: usize = 1;
    while i < 9
        invariant
            1 <= i <= 9,
            h@.wf(),
            h@ == old(h)@.at(mv(d, p, i - 1)),
            r@ == (RecordView { players: r@.players, ..old(r)@ }),
            r@.players.len() == 9,
            forall|j: int| 0 <= j < 9 ==> #[trigger] r@.players[j] == if 1 <= j < i {
                PlayerView { teamid: read_u8(d, p + j - 1), ..ps[j] }
            } else {
                ps[j]
            },
        decreases 9 - i,
    {
        let ghost prev = r@.players;
        let team = h.get_u8();
        r.players[i].teamid = team;
        assert(r@.players =~= prev.update(
            i as int,
            PlayerView { teamid: team, ..prev[i as int] },
        ));
        i = i + 1;
    }
    assert(r@.players =~= with_teams(d, p, ps));
}

/// Reads `n` entries of the lobby chat.
#[verifier::loop_isolation(false)]
fn read_lobby_chats(h: &mut StreamCursor, r: &mut Record, n: i32)
    requires
        old(h)@.wf(),
    ensures
        final(h)@ == old(h)@.at(final(h)@.pos as int),
        final(h)@.pos == lobby_chats(
            old(h)@.data(),
            old(h)@.pos as int,
            rounds(n as int),
            old(r)@.chat,
        ).1,
        final(h)@.wf(),
        final(r)@ == (RecordView {
            chat: lobby_chats(old(h)@.data(), old(h)@.pos as int, rounds(n as int), old(r)@.chat).0,
            ..old(r)@
        }),
{
    let ghost d = h@.data();
    let ghost p = h@.pos as int;
    let ghost c0 = r@.chat;
    let mut i: i32 = 0;
    while i < n
        invariant
            0 <= i,
            i <= n || n < 0,
            h@.wf(),
            h@ == old(h)@.at(h@.pos as int),
            r@ == (RecordView { chat: r@.chat, ..old(r)@ }),
            lobby_chats(d, h@.pos as int, rounds(n - i), r@.chat) == lobby_chats(
                d,
                p,
                rounds(n as int),
                c0,
            ),
        decreases n - i,
    {
        let ghost before = r@.chat;
        match h.peek_i32() {
            Some(0i32) => {
                h.mov_by(4);
            },
            _ => {
                let text = h.extract_str_l32();
                let ghost shown = crate::cursor::opt_bytes(text);
                r.chat.push(Chat { time: None, player: None, content_raw: text, content: None });
                assert(r@.chat =~= before.push(lobby_chat(shown)));
            },
        }
        i = i + 1;
    }
}

/// Reads the lobby.
pub fn read_lobby(h: &mut StreamCursor, r: &mut Record) -> (res: Result<(), ParseError>)
    ensures
        walked(st_lobby(old(h)@.data(), old(h)@.pos as int, old(r)@), old(h)@, final(h)@, final(r)@, res),
{
    reveal(st_lobby);
    proof {
        h.lemma_wf();
    }
    read_teams(h, r);
    h.mov_by(1);
    r.revealmap_raw = h.get_i32();
    h.mov_by(4);
    r.mapsize_raw = h.get_u32();
    r.poplimit = h.get_u32();
    match r.poplimit {
        None => {
            return Err(ParseError::Truncated);
        },
        Some(stored) => {
            if stored <= POP_UNIT_MAX {
                r.poplimit = Some(stored * 25);
            }
        },
    }
    if !ver_is_aok(r.ver) {
        r.gametype_raw = h.get_u8();
        r.lockdiplomacy = h.get_bool(1);
        let n: i32 = match h.get_i32() {
            Some(n) => n,
            None => {
                return Err(ParseError::Truncated);
            },
        };
        read_lobby_chats(h, r, n);
    }
    Ok(())
}

} // verus!
