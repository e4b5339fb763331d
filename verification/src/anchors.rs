//! The sections of the header that are found by their magic bytes: the
//! triggers, the game settings with the victory conditions before them, and
//! the scenario.
//!
//! Every anchor is the last occurrence of its needle before the anchor that
//! was found earlier.
use crate::bytes::{
    lemma_find_in_bounds, read_bool, read_i32, read_str_l16, read_u32, rfind_in,
};
use crate::cursor::StreamCursor;
use crate::error::ParseError;
use crate::header::{after, done, fail, mv, reports, rounds, sk, walked, Outcome, Walk};
use crate::record::{is_aok, ver_is_aok, DebugView, Record, RecordView};
use vstd::prelude::*;

verus! {

/// The double-precision number 1.6, least significant byte first: where it
/// stands last, the triggers start behind it.
pub open spec fn trigger_needle() -> Seq<u8> {
    seq![0x9au8, 0x99u8, 0x99u8, 0x99u8, 0x99u8, 0x99u8, 0xf9u8, 0x3fu8]
}

/// The 32-bit number -99, least significant byte first: where it stands last
/// before the triggers, the game settings start.
pub open spec fn settings_needle() -> Seq<u8> {
    seq![0x9du8, 0xffu8, 0xffu8, 0xffu8]
}

/// The scenario version, least significant byte first: the single-precision
/// number 1.20 in The Age of Kings, 1.22 later.
pub open spec fn scenario_needle(aok: bool) -> Seq<u8> {
    if aok {
        seq![0x9au8, 0x99u8, 0x99u8, 0x3fu8]
    } else {
        seq![0xf6u8, 0x28u8, 0x9cu8, 0x3fu8]
    }
}

/// From the game settings back to the disabled techs.
pub const DISABLED_TECHS_BACK: usize = 5456;

/// From the disabled techs back to the victory conditions: 12544 + 44.
pub const VICTORY_BACK: usize = 12588;

/// From the scenario version on to the name of the scenario file:
/// 16 * 256 + 16 * 4 + 16 * 16 + 5 + 4.
pub const SCENARIO_SKIP: u32 = 4425;

/// The position `p` moved by `n` where `n` is positive, and `p` otherwise.
pub open spec fn mv_pos(d: Seq<u8>, p: int, n: int) -> int {
    if n > 0 {
        mv(d, p, n)
    } else {
        p
    }
}

/// The position after `n` effects of a trigger, or `None` when a number
/// cannot be read. A count of selected objects of -1 stands for none.
pub open spec fn effects(d: Seq<u8>, p: int, n: nat) -> Option<int>
    decreases n,
{
    if n == 0 {
        Some(p)
    } else {
        let q1 = mv(d, p, 24);
        let q2 = mv(d, q1 + 4, 72);
        match (read_i32(d, q1), read_i32(d, q2)) {
            (Some(selected), Some(text)) => {
                let q3 = mv_pos(d, q2 + 4, text as int);
                match read_i32(d, q3) {
                    Some(sound) => effects(
                        d,
                        mv(
                            d,
                            mv_pos(d, q3 + 4, sound as int),
                            4 * if selected == -1 {
                                0
                            } else {
                                selected as int
                            },
                        ),
                        (n - 1) as nat,
                    ),
                    None => None,
                }
            },
            _ => None,
        }
    }
}

/// The position after the trigger at `p`, or `None` when a number cannot be
/// read.
#[verifier::opaque]
pub open spec fn trigger(d: Seq<u8>, p: int) -> Option<int> {
    let q1 = mv(d, p, 18);
    match read_i32(d, q1) {
        None => None,
        Some(desc) => {
            let q2 = mv_pos(d, q1 + 4, desc as int);
            match read_i32(d, q2) {
                None => None,
                Some(name) => {
                    let q3 = mv_pos(d, q2 + 4, name as int);
                    match read_i32(d, q3) {
                        None => None,
                        Some(n) => match effects(d, q3 + 4, rounds(n as int)) {
                            None => None,
                            Some(q4) => {
                                let q5 = mv(d, q4, 4 * n);
                                match read_i32(d, q5) {
                                    None => None,
                                    Some(conds) => Some(mv(d, q5 + 4, conds * (72 + 4))),
                                }
                            },
                        },
                    }
                },
            }
        },
    }
}

/// The position after `n` triggers, or `None` when a number cannot be read.
pub open spec fn triggers(d: Seq<u8>, p: int, n: nat) -> Option<int>
    decreases n,
{
    if n == 0 {
        Some(p)
    } else {
        match trigger(d, p) {
            None => None,
            Some(q) => triggers(d, q, (n - 1) as nat),
        }
    }
}

/// The trigger stage: finds the triggers and skips them. What follows them
/// is the lobby.
#[verifier::opaque]
pub open spec fn st_triggers(d: Seq<u8>, r: RecordView) -> Walk {
    match rfind_in(d, trigger_needle(), 0, d.len() as int) {
        None => fail(r, ParseError::AnchorMissing),
        Some(m) => {
            let r1 = RecordView { debug: DebugView { triggerpos: (m + 8) as usize, ..r.debug }, ..r };
            let q1 = mv(d, sk(d, m + 8), 1);
            match read_i32(d, q1) {
                None => fail(r1, ParseError::Truncated),
                Some(n) => match triggers(d, q1 + 4, rounds(n as int)) {
                    None => fail(r1, ParseError::Truncated),
                    Some(q2) => done(r1, mv_pos(d, q2, 4 * n)),
                },
            }
        },
    }
}

/// The needle of the triggers.
pub fn trigger_needle_bytes() -> (v: Vec<u8>)
    ensures
        v@ == trigger_needle(),
{
    let v: Vec<u8> = vec![0x9au8, 0x99u8, 0x99u8, 0x99u8, 0x99u8, 0x99u8, 0xf9u8, 0x3fu8];
    assert(v@ =~= trigger_needle());
    v
}

/// The needle of the game settings.
pub fn settings_needle_bytes() -> (v: Vec<u8>)
    ensures
        v@ == settings_needle(),
{
    let v: Vec<u8> = vec![0x9du8, 0xffu8, 0xffu8, 0xffu8];
    assert(v@ =~= settings_needle());
    v
}

/// The needle of the scenario.
pub fn scenario_needle_bytes(aok: bool) -> (v: Vec<u8>)
    ensures
        v@ == scenario_needle(aok),
{
    let v: Vec<u8> = if aok {
        vec![0x9au8, 0x99u8, 0x99u8, 0x3fu8]
    } else {
        vec![0xf6u8, 0x28u8, 0x9cu8, 0x3fu8]
    };
    assert(v@ =~= scenario_needle(aok));
    v
}

/// Moves by `n` where `n` is positive.
fn mov_pos(h: &mut StreamCursor, n: i32)
    requires
        old(h)@.wf(),
    ensures
        final(h)@ == old(h)@.at(mv_pos(old(h)@.data(), old(h)@.pos as int, n as int)),
        final(h)@.wf(),
{
    if n > 0 {
        h.mov_by(n as i128);
    }
}

/// Skips `n` effects of a trigger; false when a number cannot be read.
#[verifier::loop_isolation(false)]
fn skip_effects(h: &mut StreamCursor, n: i32) -> (ok: bool)
    requires
        old(h)@.wf(),
    ensures
        final(h)@ == old(h)@.at(final(h)@.pos as int),
        final(h)@.wf(),
        match effects(old(h)@.data(), old(h)@.pos as int, rounds(n as int)) {
            Some(q) => ok && final(h)@.pos == q,
            None => !ok,
        },
{
    let ghost d = h@.data();
    let ghost q0 = h@.pos as int;
    let mut i: i32 = 0;
    while i < n
        invariant
            0 <= i,
            i <= n || n < 0,
            h@.wf(),
            h@ == old(h)@.at(h@.pos as int),
            effects(d, h@.pos as int, rounds(n - i)) == effects(d, q0, rounds(n as int)),
        decreases n - i,
    {
        h.mov_by(24);
        let selected = h.get_i32();
        h.mov_by(72);
        let text = h.get_i32();
        let (selected, text): (i32, i32) = match (selected, text) {
            (Some(s), Some(t)) => (s, t),
            _ => {
                return false;
            },
        };
        mov_pos(h, text);
        let sound: i32 = match h.get_i32() {
            Some(s) => s,
            None => {
                return false;
            },
        };
        mov_pos(h, sound);
        h.mov_by(
            4 * if selected == -1 {
                0
            } else {
                selected as i128
            },
        );
        i = i + 1;
    }
    true
}

/// Skips the trigger at the position; false when a number cannot be read.
fn skip_trigger(h: &mut StreamCursor) -> (ok: bool)
    requires
        old(h)@.wf(),
    ensures
        final(h)@ == old(h)@.at(final(h)@.pos as int),
        final(h)@.wf(),
        match trigger(old(h)@.data(), old(h)@.pos as int) {
            Some(q) => ok && final(h)@.pos == q,
            None => !ok,
        },
{
    reveal(trigger);
    h.mov_by(18);
    let desc: i32 = match h.get_i32() {
        Some(n) => n,
        None => {
            return false;
        },
    };
    mov_pos(h, desc);
    let name: i32 = match h.get_i32() {
        Some(n) => n,
        None => {
            return false;
        },
    };
    mov_pos(h, name);
    let n: i32 = match h.get_i32() {
        Some(n) => n,
        None => {
            return false;
        },
    };
    if !skip_effects(h, n) {
        return false;
    }
    h.mov_by(4 * n as i128);
    let conds: i32 = match h.get_i32() {
        Some(n) => n,
        None => {
            return false;
        },
    };
    h.mov_by(conds as i128 * (72 + 4));
    true
}

/// Skips `n` triggers; false when a number cannot be read.
#[verifier::loop_isolation(false)]
fn skip_trigger_list(h: &mut StreamCursor, n: i32) -> (ok: bool)
    requires
        old(h)@.wf(),
    ensures
        final(h)@ == old(h)@.at(final(h)@.pos as int),
        final(h)@.wf(),
        match triggers(old(h)@.data(), old(h)@.pos as int, rounds(n as int)) {
            Some(q) => ok && final(h)@.pos == q,
            None => !ok,
        },
{
    let ghost d = h@.data();
    let ghost c0 = h@;
    let mut i: i32 = 0;
    while i < n
        invariant
            0 <= i,
            i <= n || n < 0,
            h@.wf(),
            h@ == c0.at(h@.pos as int),
            d == c0.data(),
            triggers(d, h@.pos as int, rounds(n - i)) == triggers(d, c0.pos as int, rounds(n as int)),
        decreases n - i,
    {
        if !skip_trigger(h) {
            return false;
        }
        i = i + 1;
    }
    true
}

/// Finds the triggers and skips them.
pub fn skip_triggers(h: &mut StreamCursor, r: &mut Record) -> (res: Result<(), ParseError>)
    ensures
        walked(st_triggers(old(h)@.data(), old(r)@), old(h)@, final(h)@, final(r)@, res),
{
    reveal(st_triggers);
    let ghost d = h@.data();
    let needle = trigger_needle_bytes();
    let len: usize = h.data_len();
    proof {
        lemma_find_in_bounds(d, needle@, 0, len as int);
    }
    let m: usize = match h.rfind(&needle, 0..len) {
        Some(m) => m,
        None => {
            return Err(ParseError::AnchorMissing);
        },
    };
    r.debug.triggerpos = m + 8;
    h.seek(m + 8);
    h.mov_by(1);
    let n: i32 = match h.get_i32() {
        Some(n) => n,
        None => {
            return Err(ParseError::Truncated);
        },
    };
    if !skip_trigger_list(h, n) {
        return Err(ParseError::Truncated);
    }
    if n > 0 {
        h.mov_by(4 * n as i128);
    }
    Ok(())
}

/// The victory conditions, read at `vic`.
pub open spec fn with_victory(d: Seq<u8>, vic: int, r: RecordView) -> RecordView {
    let q0 = mv(d, sk(d, vic), 4);
    let q1 = mv(d, after(d, q0, 4), 4);
    let q2 = mv(d, after(d, q1, 4), 4);
    let q3 = mv(d, after(d, q2, 4), 4);
    let q4 = after(d, q3, 4);
    let q5 = after(d, q4, 4);
    let q6 = after(d, q5, 4);
    RecordView {
        isconquest: read_bool(d, q0, 4),
        relics2win: read_i32(d, q1),
        explored2win: read_i32(d, q2),
        anyorall: read_bool(d, q3, 4),
        victorytype_raw: read_i32(d, q4),
        score2win: read_i32(d, q5),
        time2win_raw: read_i32(d, q6),
        ..r
    }
}

/// The settings stage: finds the game settings before the triggers, places
/// the disabled techs and the victory conditions before them, and reads the
/// victory conditions. Anchors that leave no room for these sections break
/// the format.
#[verifier::opaque]
pub open spec fn st_victory(d: Seq<u8>, r: RecordView) -> Outcome {
    match rfind_in(d, settings_needle(), 0, r.debug.triggerpos as int) {
        None => Outcome { rec: r, err: Some(ParseError::AnchorMissing) },
        Some(m) => {
            let r1 = RecordView { debug: DebugView { settingspos: m as usize, ..r.debug }, ..r };
            if m < DISABLED_TECHS_BACK {
                Outcome { rec: r1, err: Some(ParseError::Corrupt) }
            } else {
                let dis = m - DISABLED_TECHS_BACK;
                let r2 = RecordView {
                    debug: DebugView { disabledtechspos: dis as usize, ..r1.debug },
                    ..r1
                };
                if dis < VICTORY_BACK {
                    Outcome { rec: r2, err: Some(ParseError::Corrupt) }
                } else {
                    let vic = dis - VICTORY_BACK;
                    let r3 = RecordView {
                        debug: DebugView { victorypos: vic as usize, ..r2.debug },
                        ..r2
                    };
                    Outcome { rec: with_victory(d, vic, r3), err: None }
                }
            }
        },
    }
}

/// Reads the victory conditions that start at `vic`.
fn read_victory_at(h: &mut StreamCursor, r: &mut Record, vic: usize)
    ensures
        final(r)@ == with_victory(old(h)@.data(), vic as int, old(r)@),
        final(h)@ == old(h)@.at(final(h)@.pos as int),
        final(h)@.wf(),
{
    h.seek(vic);
    h.mov_by(4);
    r.isconquest = h.get_bool(4);
    h.mov_by(4);
    r.relics2win = h.get_i32();
    h.mov_by(4);
    r.explored2win = h.get_i32();
    h.mov_by(4);
    r.anyorall = h.get_bool(4);
    r.victorytype_raw = h.get_i32();
    r.score2win = h.get_i32();
    r.time2win_raw = h.get_i32();
}

/// Finds the game settings and reads the victory conditions. The position
/// it leaves is of no account.
pub fn read_victory(h: &mut StreamCursor, r: &mut Record) -> (res: Result<(), ParseError>)
    ensures
        final(r)@ == st_victory(old(h)@.data(), old(r)@).rec,
        reports(res, st_victory(old(h)@.data(), old(r)@).err),
        final(h)@ == old(h)@.at(final(h)@.pos as int),
        final(h)@.wf(),
{
    reveal(st_victory);
    let ghost d = h@.data();
    let needle = settings_needle_bytes();
    proof {
        lemma_find_in_bounds(d, needle@, 0, r.debug.triggerpos as int);
    }
    let m: usize = match h.rfind(&needle, 0..r.debug.triggerpos) {
        Some(m) => m,
        None => {
            return Err(ParseError::AnchorMissing);
        },
    };
    r.debug.settingspos = m;
    if m < DISABLED_TECHS_BACK {
        return Err(ParseError::Corrupt);
    }
    r.debug.disabledtechspos = m - DISABLED_TECHS_BACK;
    if r.debug.disabledtechspos < VICTORY_BACK {
        return Err(ParseError::Corrupt);
    }
    r.debug.victorypos = r.debug.disabledtechspos - VICTORY_BACK;
    read_victory_at(h, r, r.debug.victorypos);
    Ok(())
}

/// The scenario, read at `sc`: its version, the name of its file and the
/// instructions.
pub open spec fn with_scenario(d: Seq<u8>, sc: int, r: RecordView) -> RecordView {
    let q0 = mv(d, sk(d, sc), 4);
    let q1 = mv(d, after(d, q0, 4), SCENARIO_SKIP as int);
    let name = read_str_l16(d, q1);
    let q2 = mv(
        d,
        name.next,
        if is_aok(r.ver) {
            20
        } else {
            24
        },
    );
    RecordView {
        verscenario: read_u32(d, q0),
        scenariofilename_raw: name.text,
        instructions_raw: read_str_l16(d, q2).text,
        ..r
    }
}

/// The scenario stage: finds the scenario version before the victory
/// conditions; the scenario starts four bytes before it.
#[verifier::opaque]
pub open spec fn st_scenario(d: Seq<u8>, r: RecordView) -> Outcome {
    match rfind_in(d, scenario_needle(is_aok(r.ver)), 0, r.debug.victorypos as int) {
        None => Outcome { rec: r, err: Some(ParseError::AnchorMissing) },
        Some(m) => if m < 4 {
            Outcome { rec: r, err: Some(ParseError::Corrupt) }
        } else {
            Outcome {
                rec: with_scenario(
                    d,
                    m - 4,
                    RecordView {
                        debug: DebugView { scenariopos: (m - 4) as usize, ..r.debug },
                        ..r
                    },
                ),
                err: None,
            }
        },
    }
}

/// Reads the scenario that starts at `sc`.
fn read_scenario_at(h: &mut StreamCursor, r: &mut Record, sc: usize)
    ensures
        final(r)@ == with_scenario(old(h)@.data(), sc as int, old(r)@),
        final(h)@ == old(h)@.at(final(h)@.pos as int),
        final(h)@.wf(),
{
    h.seek(sc);
    h.mov_by(4);
    r.verscenario = h.get_f32();
    h.mov_by(SCENARIO_SKIP as i128);
    r.scenariofilename_raw = h.extract_str_l16();
    h.mov_by(4 * 5);
    if !ver_is_aok(r.ver) {
        h.mov_by(4);
    }
    r.instructions_raw = h.extract_str_l16();
}

/// Finds and reads the scenario. The position it leaves is of no account.
pub fn read_scenario(h: &mut StreamCursor, r: &mut Record) -> (res: Result<(), ParseError>)
    ensures
        final(r)@ == st_scenario(old(h)@.data(), old(r)@).rec,
        reports(res, st_scenario(old(h)@.data(), old(r)@).err),
        final(h)@ == old(h)@.at(final(h)@.pos as int),
        final(h)@.wf(),
{
    reveal(st_scenario);
    let needle = scenario_needle_bytes(ver_is_aok(r.ver));
    proof {
        lemma_find_in_bounds(h@.data(), needle@, 0, r.debug.victorypos as int);
    }
    let m: usize = match h.rfind(&needle, 0..r.debug.victorypos) {
        Some(m) => m,
        None => {
            return Err(ParseError::AnchorMissing);
        },
    };
    if m < 4 {
        return Err(ParseError::Corrupt);
    }
    r.debug.scenariopos = m - 4;
    read_scenario_at(h, r, m - 4);
    Ok(())
}

/// Where the game settings and the scenario were found, the sections lie in
/// order: the scenario before the victory conditions, these before the
/// disabled techs, these before the game settings, and these before the
/// triggers.
pub proof fn lemma_anchors_in_order(d: Seq<u8>, r: RecordView)
    requires
        st_victory(d, r).err.is_none(),
        st_scenario(d, st_victory(d, r).rec).err.is_none(),
    ensures
        ({
            let found = st_scenario(d, st_victory(d, r).rec).rec.debug;
            found.scenariopos < found.victorypos < found.disabledtechspos < found.settingspos
                < found.triggerpos && found.triggerpos == r.debug.triggerpos
        }),
{
    reveal(st_scenario);
    reveal(st_victory);
    let r1 = st_victory(d, r).rec;
    lemma_find_in_bounds(d, settings_needle(), 0, r.debug.triggerpos as int);
    lemma_find_in_bounds(d, scenario_needle(is_aok(r1.ver)), 0, r1.debug.victorypos as int);
}

} // verus!
