//! The body of a recorded game: a stream of operations that is read one by
//! one and applied to the record.
//!
//! [`op_at`] says which operation stands at a position and where the next
//! one starts, [`op_effect`] what an operation does to the record, and
//! [`run_body`] what the whole stream does.
use crate::bytes::{avail, clamp_pos, read_bool, read_i16, read_i32, read_i8, read_u32, read_u8, str_text};
use crate::cursor::StreamCursor;
use crate::error::ParseError;
use crate::record::{
    is_aok, is_strict, ver_is_aok, ver_is_strict, Chat, ChatView, DebugView, PlayerView, Record,
    RecordView, Version,
};
use vstd::prelude::*;

verus! {

/// A command of a player.
pub const OP_COMMAND: i32 = 0x01;

/// A time step.
pub const OP_SYNC: i32 = 0x02;

/// A change of what the recording player looks at.
pub const OP_VIEWLOCK: i32 = 0x03;

/// A chat message, or the start of the game.
pub const OP_CHAT: i32 = 0x04;

/// The command by which a player resigns.
pub const COMMAND_RESIGN: u8 = 0x0b;

/// The command that starts a research.
pub const COMMAND_RESEARCH: u8 = 0x65;

/// The command that moves units.
pub const COMMAND_MOVE: u8 = 0x03;

/// How many moves from the start of the game are kept.
pub const EARLYMOVE_THRESHOLD: usize = 5;

/// How many bytes of a move are kept.
pub const MOVE_CMD_SIZE: usize = 19;

/// Research of the Feudal Age.
pub const TECH_FEUDAL: i16 = 101;

/// Research of the Castle Age.
pub const TECH_CASTLE: i16 = 102;

/// Research of the Imperial Age.
pub const TECH_IMPERIAL: i16 = 103;

/// Milliseconds that the research of the Feudal Age takes.
pub const FEUDAL_MS: u32 = 130000;

/// Milliseconds that the research of the Castle Age takes.
pub const CASTLE_MS: u32 = 160000;

/// Milliseconds that the research of the Imperial Age takes.
pub const IMPERIAL_MS: u32 = 190000;

/// The civilization that advances ten percent faster.
pub const CIV_FAST_AGING: u8 = 8;

/// 160000 / 1.1, rounded down.
pub const CASTLE_FAST_MS: u32 = 145454;

/// 190000 / 1.1, rounded down.
pub const IMPERIAL_FAST_MS: u32 = 172727;

/// One operation of the body, with what the decoder keeps of it.
#[derive(Debug)]
pub enum BodyOp {
    /// Fewer than eight bytes are left: the stream is over.
    End,
    /// An operation that leaves the record as it is.
    Nothing,
    /// Time goes on by `delta` milliseconds.
    Sync { delta: u32 },
    /// The player in `slot` resigns.
    Resign { slot: i8, disconnected: Option<bool> },
    /// The player numbered `index` starts to research `tech`.
    Research { index: i8, tech: i16 },
    /// A move command, of which the first bytes are kept.
    Move { bytes: [u8; 19] },
    /// A chat message that passed the filter.
    Chat { text: Vec<u8> },
}

/// An operation of the body, mathematically.
pub enum BodyOpView {
    End,
    Nothing,
    Sync { delta: u32 },
    Resign { slot: i8, disconnected: Option<bool> },
    Research { index: i8, tech: i16 },
    Move { bytes: Seq<u8> },
    Chat { text: Seq<u8> },
}

impl View for BodyOp {
    type V = BodyOpView;

    open spec fn view(&self) -> BodyOpView {
        match *self {
            BodyOp::End => BodyOpView::End,
            BodyOp::Nothing => BodyOpView::Nothing,
            BodyOp::Sync { delta } => BodyOpView::Sync { delta },
            BodyOp::Resign { slot, disconnected } => BodyOpView::Resign { slot, disconnected },
            BodyOp::Research { index, tech } => BodyOpView::Research { index, tech },
            BodyOp::Move { bytes } => BodyOpView::Move { bytes: bytes@ },
            BodyOp::Chat { text } => BodyOpView::Chat { text: text@ },
        }
    }
}

/// What stands at a position of the body: the operation, where the next one
/// starts, and the error that ends the decoding there, if any. The operation
/// counts even where an error comes with it.
pub struct OpRead {
    pub op: BodyOpView,
    pub next: int,
    pub err: Option<ParseError>,
}

/// A message that players do not get to see: the empty one, and the note
/// `@#N--text--` that the game writes for itself.
pub open spec fn chat_hidden(m: Seq<u8>) -> bool {
    m.len() == 0 || (m.len() >= 7 && m[0] == 0x40 && m[1] == 0x23 && m[3] == 0x2d && m[4] == 0x2d
        && m[m.len() - 2] == 0x2d && m[m.len() - 1] == 0x2d)
}

/// The command whose length field stands at `q`.
pub open spec fn command_at(d: Seq<u8>, q: int) -> OpRead {
    let len = read_u32(d, q).unwrap() as int;
    let s = q + 4;
    let next = if d.len() - s < len + 4 {
        d.len() as int
    } else {
        s + len + 4
    };
    let op = match read_u8(d, s) {
        None => BodyOpView::Nothing,
        Some(code) => if code == COMMAND_RESIGN {
            match read_i8(d, s + 2) {
                Some(slot) => BodyOpView::Resign { slot, disconnected: read_bool(d, s + 3, 4) },
                None => BodyOpView::Nothing,
            }
        } else if code == COMMAND_RESEARCH {
            match (read_i8(d, s + 8), read_i16(d, s + 10)) {
                (Some(index), Some(tech)) => BodyOpView::Research { index, tech },
                _ => BodyOpView::Nothing,
            }
        } else if code == COMMAND_MOVE {
            if avail(d, s + 1, 19) {
                BodyOpView::Move { bytes: d.subrange(s + 1, s + 20) }
            } else {
                BodyOpView::Nothing
            }
        } else {
            BodyOpView::Nothing
        },
    };
    OpRead { op, next, err: None }
}

/// The time step whose delta stands at `q`.
pub open spec fn sync_at(d: Seq<u8>, q: int) -> OpRead {
    let delta = read_i32(d, q).unwrap();
    if delta < 0 || delta > 1000 {
        OpRead { op: BodyOpView::Nothing, next: q + 4, err: Some(ParseError::Corrupt) }
    } else {
        let op = BodyOpView::Sync { delta: delta as u32 };
        match read_i32(d, q + 4) {
            None => OpRead { op, next: q + 4, err: Some(ParseError::Truncated) },
            Some(tag) => OpRead {
                op,
                next: clamp_pos(
                    d.len() as int,
                    q + 8,
                    if tag != 3 {
                        40
                    } else {
                        12
                    },
                ),
                err: None,
            },
        }
    }
}

/// What an anomaly amounts to: an error in the strict dialects, nothing in
/// the others.
pub open spec fn anomaly(ver: Option<Version>, next: int) -> OpRead {
    OpRead {
        op: BodyOpView::Nothing,
        next,
        err: if is_strict(ver) {
            Some(ParseError::Corrupt)
        } else {
            None
        },
    }
}

/// The chat operation whose command field stands at `q`.
pub open spec fn chat_at(d: Seq<u8>, q: int, ver: Option<Version>) -> OpRead {
    let command = read_i32(d, q).unwrap();
    if command == 500 {
        OpRead {
            op: BodyOpView::Nothing,
            next: clamp_pos(
                d.len() as int,
                q + 4,
                if is_aok(ver) {
                    32
                } else {
                    20
                },
            ),
            err: None,
        }
    } else if command != -1 && is_strict(ver) {
        anomaly(ver, q + 4)
    } else {
        match read_i32(d, q + 4) {
            None => anomaly(ver, q + 4),
            Some(n) => if n == 0 {
                OpRead { op: BodyOpView::Nothing, next: q + 8, err: None }
            } else if n < 0 || !avail(d, q + 8, n as int) {
                anomaly(ver, q + 8)
            } else {
                let text = str_text(d, q + 8, n as int);
                OpRead {
                    op: if chat_hidden(text) {
                        BodyOpView::Nothing
                    } else {
                        BodyOpView::Chat { text }
                    },
                    next: q + 8 + n,
                    err: None,
                }
            },
        }
    }
}

/// The operation at `p`.
pub open spec fn op_at(d: Seq<u8>, p: int, ver: Option<Version>) -> OpRead {
    if !avail(d, p, 8) {
        OpRead { op: BodyOpView::End, next: p, err: None }
    } else {
        let op_type = read_i32(d, p).unwrap();
        if op_type == OP_COMMAND {
            command_at(d, p + 4)
        } else if op_type == OP_SYNC {
            sync_at(d, p + 4)
        } else if op_type == OP_VIEWLOCK {
            OpRead { op: BodyOpView::Nothing, next: clamp_pos(d.len() as int, p + 4, 12), err: None }
        } else if op_type == OP_CHAT {
            chat_at(d, p + 4, ver)
        } else {
            anomaly(ver, p + 4)
        }
    }
}

/// Every operation but the end of the stream moves forward, and none leaves
/// the data.
pub proof fn lemma_op_advances(d: Seq<u8>, p: int, ver: Option<Version>)
    requires
        avail(d, p, 8),
    ensures
        p < op_at(d, p, ver).next <= d.len(),
        !(op_at(d, p, ver).op is End),
{
}

/// A chat that the decoder hands on is neither empty nor a hidden note.
pub proof fn lemma_op_chat_visible(d: Seq<u8>, p: int, ver: Option<Version>)
    ensures
        op_at(d, p, ver).op matches BodyOpView::Chat { text } ==> !chat_hidden(text),
        op_at(d, p, ver).op matches BodyOpView::Move { bytes } ==> bytes.len() == 19,
        op_at(d, p, ver).op matches BodyOpView::Sync { delta } ==> delta <= 1000,
{
}

/// Whether a message is hidden from the chat.
pub fn is_chat_hidden(m: &Vec<u8>) -> (b: bool)
    ensures
        b == chat_hidden(m@),
{
    let n: usize = m.len();
    if n == 0 {
        return true;
    }
    n >= 7 && m[0] == 0x40 && m[1] == 0x23 && m[3] == 0x2d && m[4] == 0x2d && m[n - 2] == 0x2d && m[n
        - 1] == 0x2d
}

/// Reads the command whose length field stands at the position.
fn read_command(b: &mut StreamCursor) -> (op: BodyOp)
    requires
        avail(old(b)@.data(), old(b)@.pos as int, 4),
        old(b)@.wf(),
    ensures
        op@ == command_at(old(b)@.data(), old(b)@.pos as int).op,
        final(b)@ == old(b)@.at(command_at(old(b)@.data(), old(b)@.pos as int).next),
        final(b)@.wf(),
{
    let len: u32 = match b.get_u32() {
        Some(n) => n,
        None => {
            return BodyOp::Nothing;
        },
    };
    let start: usize = b.tell();
    let span: u64 = len as u64 + 4;
    let total: usize = b.data_len();
    let next: usize = if (b.remain() as u64) < span {
        total
    } else {
        start + span as usize
    };
    let op = match b.get_u8() {
        None => BodyOp::Nothing,
        Some(code) => {
            if code == COMMAND_RESIGN {
                b.mov_by(1);
                match b.get_i8() {
                    Some(slot) => {
                        let disconnected = b.get_bool(4);
                        BodyOp::Resign { slot, disconnected }
                    },
                    None => BodyOp::Nothing,
                }
            } else if code == COMMAND_RESEARCH {
                b.mov_by(7);
                let index = b.get_i8();
                b.mov_by(1);
                let tech = b.get_i16();
                match (index, tech) {
                    (Some(index), Some(tech)) => BodyOp::Research { index, tech },
                    _ => BodyOp::Nothing,
                }
            } else if code == COMMAND_MOVE {
                let cur = b.current();
                if cur.len() >= MOVE_CMD_SIZE {
                    let mut bytes: [u8; 19] = [0u8;19];
                    let mut i: usize = 0;
                    while i < MOVE_CMD_SIZE
                        invariant
                            i <= 19,
                            cur@.len() >= 19,
                            forall|j: int| 0 <= j < i ==> bytes@[j] == cur@[j],
                        decreases 19 - i,
                    {
                        bytes[i] = cur[i];
                        i = i + 1;
                    }
                    assert(bytes@ =~= old(b)@.data().subrange(start + 1, start + 20));
                    BodyOp::Move { bytes }
                } else {
                    BodyOp::Nothing
                }
            } else {
                BodyOp::Nothing
            }
        },
    };
    b.seek(next);
    op
}

/// Reads the time step whose delta stands at the position.
fn read_sync(b: &mut StreamCursor) -> (res: (BodyOp, Option<ParseError>))
    requires
        avail(old(b)@.data(), old(b)@.pos as int, 4),
        old(b)@.wf(),
    ensures
        res.0@ == sync_at(old(b)@.data(), old(b)@.pos as int).op,
        res.1 == sync_at(old(b)@.data(), old(b)@.pos as int).err,
        final(b)@ == old(b)@.at(sync_at(old(b)@.data(), old(b)@.pos as int).next),
        final(b)@.wf(),
{
    let delta: i32 = match b.get_i32() {
        Some(n) => n,
        None => {
            return (BodyOp::Nothing, None);
        },
    };
    if delta < 0 || delta > 1000 {
        return (BodyOp::Nothing, Some(ParseError::Corrupt));
    }
    let op = BodyOp::Sync { delta: delta as u32 };
    match b.get_i32() {
        None => (op, Some(ParseError::Truncated)),
        Some(tag) => {
            b.mov_by(
                if tag != 3 {
                    40
                } else {
                    12
                },
            );
            (op, None)
        },
    }
}

/// What an anomaly amounts to in this dialect.
fn read_anomaly(ver: Option<Version>) -> (res: (BodyOp, Option<ParseError>))
    ensures
        res.0@ == BodyOpView::Nothing,
        res.1 == anomaly(ver, 0).err,
{
    if ver_is_strict(ver) {
        (BodyOp::Nothing, Some(ParseError::Corrupt))
    } else {
        (BodyOp::Nothing, None)
    }
}

/// Reads the chat operation whose command field stands at the position.
fn read_chat(b: &mut StreamCursor, ver: Option<Version>) -> (res: (BodyOp, Option<ParseError>))
    requires
        avail(old(b)@.data(), old(b)@.pos as int, 4),
        old(b)@.wf(),
    ensures
        res.0@ == chat_at(old(b)@.data(), old(b)@.pos as int, ver).op,
        res.1 == chat_at(old(b)@.data(), old(b)@.pos as int, ver).err,
        final(b)@ == old(b)@.at(chat_at(old(b)@.data(), old(b)@.pos as int, ver).next),
        final(b)@.wf(),
{
    let command: i32 = match b.get_i32() {
        Some(n) => n,
        None => {
            return (BodyOp::Nothing, None);
        },
    };
    if command == 500 {
        b.mov_by(
            if ver_is_aok(ver) {
                32
            } else {
                20
            },
        );
        return (BodyOp::Nothing, None);
    }
    if command != -1 && ver_is_strict(ver) {
        return read_anomaly(ver);
    }
    match b.peek_i32() {
        None => read_anomaly(ver),
        Some(n) => {
            if n == 0 {
                b.mov_by(4);
                return (BodyOp::Nothing, None);
            }
            match b.extract_str_l32() {
                None => read_anomaly(ver),
                Some(text) => {
                    if is_chat_hidden(&text) {
                        (BodyOp::Nothing, None)
                    } else {
                        (BodyOp::Chat { text }, None)
                    }
                },
            }
        },
    }
}

/// Reads the operation at the position and moves to the next one. The
/// operation counts even where an error comes with it.
pub fn read_op(b: &mut StreamCursor, ver: Option<Version>) -> (res: (BodyOp, Option<ParseError>))
    ensures
        res.0@ == op_at(old(b)@.data(), old(b)@.pos as int, ver).op,
        res.1 == op_at(old(b)@.data(), old(b)@.pos as int, ver).err,
        final(b)@ == old(b)@.at(op_at(old(b)@.data(), old(b)@.pos as int, ver).next),
        final(b)@.wf(),
{
    if b.remain() < 8 {
        return (BodyOp::End, None);
    }
    let op_type: i32 = match b.get_i32() {
        Some(n) => n,
        None => {
            return (BodyOp::End, None);
        },
    };
    if op_type == OP_COMMAND {
        (read_command(b), None)
    } else if op_type == OP_SYNC {
        read_sync(b)
    } else if op_type == OP_VIEWLOCK {
        b.mov_by(12);
        (BodyOp::Nothing, None)
    } else if op_type == OP_CHAT {
        read_chat(b, ver)
    } else {
        read_anomaly(ver)
    }
}

/// The time `ms` milliseconds after `now`, where that fits in 32 bits.
pub open spec fn add_ms(now: u32, ms: u32) -> Option<u32> {
    if now + ms <= u32::MAX {
        Some((now + ms) as u32)
    } else {
        None
    }
}

/// The first slot from `from` on whose player is numbered `index`.
pub open spec fn slot_with_index(ps: Seq<PlayerView>, index: i32, from: int) -> Option<int>
    decreases ps.len() - from,
{
    if from < 0 || from >= ps.len() {
        None
    } else if ps[from].index == Some(index) {
        Some(from)
    } else {
        slot_with_index(ps, index, from + 1)
    }
}

/// A slot found by number lies among the players, and its player has that
/// number.
pub proof fn lemma_slot_with_index(ps: Seq<PlayerView>, index: i32, from: int)
    ensures
        slot_with_index(ps, index, from) matches Some(s) ==> from <= s < ps.len() && 0 <= s
            && ps[s].index == Some(index),
    decreases ps.len() - from,
{
    if 0 <= from < ps.len() && ps[from].index != Some(index) {
        lemma_slot_with_index(ps, index, from + 1);
    }
}

/// How long the research of an age takes for a civilization, if `tech` is an
/// age at all.
pub open spec fn age_ms(tech: i16, civ_raw: Option<u8>) -> Option<u32> {
    if tech == TECH_FEUDAL {
        Some(FEUDAL_MS)
    } else if tech == TECH_CASTLE {
        Some(
            if civ_raw == Some(CIV_FAST_AGING) {
                CASTLE_FAST_MS
            } else {
                CASTLE_MS
            },
        )
    } else if tech == TECH_IMPERIAL {
        Some(
            if civ_raw == Some(CIV_FAST_AGING) {
                IMPERIAL_FAST_MS
            } else {
                IMPERIAL_MS
            },
        )
    } else {
        None
    }
}

/// The player after starting to research `tech` at time `now`: the age, if
/// it is one, is reached when the research is over.
pub open spec fn researched(p: PlayerView, tech: i16, now: u32) -> PlayerView {
    match age_ms(tech, p.civ_raw) {
        None => p,
        Some(ms) => match add_ms(now, ms) {
            None => p,
            Some(t) => if tech == TECH_FEUDAL {
                PlayerView { feudaltime: Some(t), ..p }
            } else if tech == TECH_CASTLE {
                PlayerView { castletime: Some(t), ..p }
            } else {
                PlayerView { imperialtime: Some(t), ..p }
            },
        },
    }
}

/// The record after an operation, or the error where the duration would no
/// longer fit.
pub open spec fn op_effect(r: RecordView, op: BodyOpView) -> Result<RecordView, ParseError> {
    match op {
        BodyOpView::End => Ok(r),
        BodyOpView::Nothing => Ok(r),
        BodyOpView::Sync { delta } => if r.duration + delta > u32::MAX {
            Err(ParseError::Corrupt)
        } else {
            Ok(RecordView { duration: (r.duration + delta) as u32, ..r })
        },
        BodyOpView::Resign { slot, disconnected } => if 0 <= slot < r.players.len()
            && r.players[slot as int].isvalid() {
            Ok(
                RecordView {
                    players: r.players.update(
                        slot as int,
                        PlayerView {
                            resigned: Some(r.duration),
                            disconnected,
                            ..r.players[slot as int]
                        },
                    ),
                    ..r
                },
            )
        } else {
            Ok(r)
        },
        BodyOpView::Research { index, tech } => match slot_with_index(r.players, index as i32, 0) {
            Some(s) => Ok(
                RecordView {
                    players: r.players.update(s, researched(r.players[s], tech, r.duration)),
                    ..r
                },
            ),
            None => Ok(r),
        },
        BodyOpView::Move { bytes } => if r.debug.earlymovecount < EARLYMOVE_THRESHOLD {
            Ok(
                RecordView {
                    debug: DebugView {
                        earlymovecmd: r.debug.earlymovecmd.push(bytes),
                        earlymovetime: r.debug.earlymovetime.push(r.duration),
                        earlymovecount: (r.debug.earlymovecount + 1) as usize,
                        ..r.debug
                    },
                    ..r
                },
            )
        } else {
            Ok(r)
        },
        BodyOpView::Chat { text } => Ok(
            RecordView {
                chat: r.chat.push(
                    ChatView {
                        time: Some(r.duration),
                        player: None,
                        content_raw: Some(text),
                        content: None,
                    },
                ),
                ..r
            },
        ),
    }
}

/// The record after all operations from `p` on, with the error that ended
/// the decoding, if any.
pub open spec fn run_body(d: Seq<u8>, p: int, r: RecordView) -> (RecordView, Option<ParseError>)
    decreases d.len() - p,
{
    let o = op_at(d, p, r.ver);
    if o.op is End {
        (r, None)
    } else {
        match op_effect(r, o.op) {
            Err(e) => (r, Some(e)),
            Ok(r2) => if o.err.is_some() {
                (r2, o.err)
            } else if p < o.next <= d.len() {
                run_body(d, o.next, r2)
            } else {
                (r2, None)
            },
        }
    }
}

/// The time that the time steps from `p` on add, as far as they are applied.
pub open spec fn sync_total(d: Seq<u8>, p: int, r: RecordView) -> int
    decreases d.len() - p,
{
    let o = op_at(d, p, r.ver);
    if o.op is End {
        0
    } else {
        match op_effect(r, o.op) {
            Err(e) => 0,
            Ok(r2) => {
                let here: int = match o.op {
                    BodyOpView::Sync { delta } => delta as int,
                    _ => 0,
                };
                if o.err.is_some() {
                    here
                } else if p < o.next <= d.len() {
                    here + sync_total(d, o.next, r2)
                } else {
                    here
                }
            },
        }
    }
}

/// A chat of the body: it has a time and a text that is not hidden.
pub open spec fn body_chat_ok(c: ChatView) -> bool {
    c.time.is_some() && match c.content_raw {
        Some(text) => !chat_hidden(text),
        None => false,
    }
}

/// The operations leave the dialect as it is, and what is not a player, a
/// chat, an early move or the duration.
pub open spec fn body_frame(a: RecordView, b: RecordView) -> bool {
    b == RecordView {
        duration: b.duration,
        chat: b.chat,
        players: b.players,
        debug: DebugView {
            earlymovecmd: b.debug.earlymovecmd,
            earlymovetime: b.debug.earlymovetime,
            earlymovecount: b.debug.earlymovecount,
            ..a.debug
        },
        ..a
    }
}

/// The duration after the body is the duration before it plus the time of
/// the time steps that were applied; it never goes down.
pub proof fn lemma_duration_is_sum(d: Seq<u8>, p: int, r: RecordView)
    ensures
        run_body(d, p, r).0.duration == r.duration + sync_total(d, p, r),
        sync_total(d, p, r) >= 0,
        run_body(d, p, r).0.duration >= r.duration,
    decreases d.len() - p,
{
    let o = op_at(d, p, r.ver);
    if !(o.op is End) {
        match op_effect(r, o.op) {
            Err(e) => {},
            Ok(r2) => {
                if o.err.is_none() && p < o.next <= d.len() {
                    lemma_duration_is_sum(d, o.next, r2);
                }
            },
        }
    }
}

/// The body only adds chats, and each one it adds has a time and a text that
/// is neither empty nor a hidden note.
pub proof fn lemma_body_chats_visible(d: Seq<u8>, p: int, r: RecordView)
    ensures
        run_body(d, p, r).0.chat.len() >= r.chat.len(),
        run_body(d, p, r).0.chat.subrange(0, r.chat.len() as int) == r.chat,
        forall|i: int|
            r.chat.len() <= i < run_body(d, p, r).0.chat.len() ==> body_chat_ok(
                #[trigger] run_body(d, p, r).0.chat[i],
            ),
    decreases d.len() - p,
{
    let o = op_at(d, p, r.ver);
    let out = run_body(d, p, r).0;
    if o.op is End {
        assert(out.chat.subrange(0, r.chat.len() as int) =~= r.chat);
    } else {
        lemma_op_chat_visible(d, p, r.ver);
        match op_effect(r, o.op) {
            Err(e) => {
                assert(out.chat.subrange(0, r.chat.len() as int) =~= r.chat);
            },
            Ok(r2) => {
                assert(r2.chat.len() >= r.chat.len());
                assert(r2.chat.subrange(0, r.chat.len() as int) =~= r.chat);
                assert(forall|i: int|
                    r.chat.len() <= i < r2.chat.len() ==> body_chat_ok(#[trigger] r2.chat[i]));
                if o.err.is_none() && p < o.next <= d.len() {
                    lemma_body_chats_visible(d, o.next, r2);
                    assert(out.chat.subrange(0, r.chat.len() as int) =~= r2.chat.subrange(
                        0,
                        r.chat.len() as int,
                    )) by {
                        assert(out.chat.subrange(0, r2.chat.len() as int) == r2.chat);
                        assert forall|i: int| 0 <= i < r.chat.len() implies out.chat[i]
                            == r2.chat[i] by {
                            assert(out.chat.subrange(0, r2.chat.len() as int)[i] == out.chat[i]);
                        }
                    }
                    assert forall|i: int| r.chat.len() <= i < out.chat.len() implies body_chat_ok(
                        #[trigger] out.chat[i],
                    ) by {
                        if i < r2.chat.len() {
                            assert(out.chat.subrange(0, r2.chat.len() as int)[i] == out.chat[i]);
                        }
                    }
                }
            },
        }
    }
}

/// Early moves stay in order: as many commands as times, as many as counted,
/// five at most, nineteen bytes each.
pub proof fn lemma_early_moves_ok(d: Seq<u8>, p: int, r: RecordView)
    requires
        r.debug.early_moves_ok(),
    ensures
        run_body(d, p, r).0.debug.early_moves_ok(),
    decreases d.len() - p,
{
    let o = op_at(d, p, r.ver);
    if !(o.op is End) {
        lemma_op_chat_visible(d, p, r.ver);
        match op_effect(r, o.op) {
            Err(e) => {},
            Ok(r2) => {
                assert(r2.debug.early_moves_ok());
                if o.err.is_none() && p < o.next <= d.len() {
                    lemma_early_moves_ok(d, o.next, r2);
                }
            },
        }
    }
}

/// The body changes nothing but the duration, the chat, the players and the
/// early moves, and keeps nine players.
pub proof fn lemma_body_frame(d: Seq<u8>, p: int, r: RecordView)
    ensures
        body_frame(r, run_body(d, p, r).0),
        run_body(d, p, r).0.players.len() == r.players.len(),
    decreases d.len() - p,
{
    let o = op_at(d, p, r.ver);
    if !(o.op is End) {
        match op_effect(r, o.op) {
            Err(e) => {},
            Ok(r2) => {
                if let BodyOpView::Research { index, tech } = o.op {
                    lemma_slot_with_index(r.players, index as i32, 0);
                }
                assert(r2.players.len() == r.players.len());
                assert(body_frame(r, r2));
                if o.err.is_none() && p < o.next <= d.len() {
                    lemma_body_frame(d, o.next, r2);
                }
            },
        }
    }
}

/// The first slot whose player is numbered `index`.
pub fn find_slot(r: &Record, index: i32) -> (res: Option<usize>)
    ensures
        match slot_with_index(r@.players, index, 0) {
            Some(s) => res == Some(s as usize) && 0 <= s < 9,
            None => res.is_none(),
        },
{
    proof {
        lemma_slot_with_index(r@.players, index, 0);
    }
    let mut i: usize = 0;
    while i < 9
        invariant
            i <= 9,
            r@.players.len() == 9,
            slot_with_index(r@.players, index, 0) == slot_with_index(r@.players, index, i as int),
        decreases 9 - i,
    {
        match r.players[i].index {
            Some(x) => {
                if x == index {
                    return Some(i);
                }
            },
            None => {},
        }
        i = i + 1;
    }
    None
}

/// How long the research of an age takes for a civilization, if `tech` is an
/// age at all.
pub fn age_duration(tech: i16, civ_raw: Option<u8>) -> (res: Option<u32>)
    ensures
        res == age_ms(tech, civ_raw),
{
    let fast: bool = match civ_raw {
        Some(c) => c == CIV_FAST_AGING,
        None => false,
    };
    if tech == TECH_FEUDAL {
        Some(FEUDAL_MS)
    } else if tech == TECH_CASTLE {
        Some(
            if fast {
                CASTLE_FAST_MS
            } else {
                CASTLE_MS
            },
        )
    } else if tech == TECH_IMPERIAL {
        Some(
            if fast {
                IMPERIAL_FAST_MS
            } else {
                IMPERIAL_MS
            },
        )
    } else {
        None
    }
}

/// Applies one operation to the record. Only a time step can fail: where the
/// duration would no longer fit, the record stays as it is.
pub fn apply_op(r: &mut Record, op: BodyOp) -> (res: Result<(), ParseError>)
    ensures
        match op_effect(old(r)@, op@) {
            Ok(v) => res.is_ok() && final(r)@ == v,
            Err(e) => res == Err::<(), ParseError>(e) && final(r)@ == old(r)@,
        },
{
    match op {
        BodyOp::End => {},
        BodyOp::Nothing => {},
        BodyOp::Sync { delta } => {
            if delta > u32::MAX - r.duration {
                return Err(ParseError::Corrupt);
            }
            r.duration = r.duration + delta;
        },
        BodyOp::Resign { slot, disconnected } => {
            if slot >= 0 && slot < 9 {
                let s: usize = slot as usize;
                if r.players[s].isvalid() {
                    r.players[s].resigned = Some(r.duration);
                    r.players[s].disconnected = disconnected;
                    assert(r@.players =~= old(r)@.players.update(
                        s as int,
                        PlayerView {
                            resigned: Some(r.duration),
                            disconnected,
                            ..old(r)@.players[s as int]
                        },
                    ));
                }
            }
        },
        BodyOp::Research { index, tech } => {
            match find_slot(r, index as i32) {
                Some(s) => {
                    match age_duration(tech, r.players[s].civ_raw) {
                        Some(ms) => {
                            if ms <= u32::MAX - r.duration {
                                let t: u32 = r.duration + ms;
                                if tech == TECH_FEUDAL {
                                    r.players[s].feudaltime = Some(t);
                                } else if tech == TECH_CASTLE {
                                    r.players[s].castletime = Some(t);
                                } else {
                                    r.players[s].imperialtime = Some(t);
                                }
                            }
                        },
                        None => {},
                    }
                    assert(r@.players =~= old(r)@.players.update(
                        s as int,
                        researched(old(r)@.players[s as int], tech, old(r)@.duration),
                    ));
                },
                None => {},
            }
        },
        BodyOp::Move { bytes } => {
            if r.debug.earlymovecount < EARLYMOVE_THRESHOLD {
                r.debug.earlymovecmd.push(bytes);
                r.debug.earlymovetime.push(r.duration);
                r.debug.earlymovecount = r.debug.earlymovecount + 1;
                assert(r@.debug.earlymovecmd =~= old(r)@.debug.earlymovecmd.push(bytes@));
            }
        },
        BodyOp::Chat { text } => {
            let ghost shown = text@;
            r.chat.push(
                Chat { time: Some(r.duration), player: None, content_raw: Some(text), content: None },
            );
            assert(r@.chat =~= old(r)@.chat.push(
                ChatView {
                    time: Some(r.duration),
                    player: None,
                    content_raw: Some(shown),
                    content: None,
                },
            ));
        },
    }
    Ok(())
}

/// Reads the operations from the position to the end of the data and applies
/// them to the record. Decoding ends when fewer than eight bytes are left, or
/// at the first error; what was applied until then stays in the record.
#[verifier::loop_isolation(false)]
pub fn parse_body(b: &mut StreamCursor, r: &mut Record) -> (res: Result<(), ParseError>)
    ensures
        final(r)@ == run_body(old(b)@.data(), old(b)@.pos as int, old(r)@).0,
        match run_body(old(b)@.data(), old(b)@.pos as int, old(r)@).1 {
            Some(e) => res == Err::<(), ParseError>(e),
            None => res.is_ok(),
        },
        final(b)@ == old(b)@.at(final(b)@.pos as int),
        final(b)@.wf(),
        final(r)@.duration == old(r)@.duration + sync_total(
            old(b)@.data(),
            old(b)@.pos as int,
            old(r)@,
        ),
        final(r)@.duration >= old(r)@.duration,
        old(r)@.debug.early_moves_ok() ==> final(r)@.debug.early_moves_ok(),
        forall|i: int|
            old(r)@.chat.len() <= i < final(r)@.chat.len() ==> body_chat_ok(
                #[trigger] final(r)@.chat[i],
            ),
        body_frame(old(r)@, final(r)@),
{
    let ghost d = b@.data();
    let ghost q0 = b@.pos as int;
    let ghost r0 = r@;
    let ghost c0 = b@;
    proof {
        lemma_duration_is_sum(d, q0, r0);
        lemma_body_chats_visible(d, q0, r0);
        lemma_body_frame(d, q0, r0);
        if r0.debug.early_moves_ok() {
            lemma_early_moves_ok(d, q0, r0);
        }
        b.lemma_wf();
    }
    loop
        invariant
            b@.wf(),
            b@ == c0.at(b@.pos as int),
            d == c0.data(),
            run_body(d, b@.pos as int, r@) == run_body(d, q0, r0),
        decreases d.len() - b@.pos,
    {
        let ghost here = b@.pos as int;
        let ver = r.ver;
        let (op, err) = read_op(b, ver);
        proof {
            if avail(d, here, 8) {
                lemma_op_advances(d, here, ver);
            }
        }
        if let BodyOp::End = op {
            return Ok(());
        }
        match apply_op(r, op) {
            Err(e) => {
                return Err(e);
            },
            Ok(()) => {},
        }
        match err {
            Some(e) => {
                return Err(e);
            },
            None => {},
        }
    }
}

} // verus!
