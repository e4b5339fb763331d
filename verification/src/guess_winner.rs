//! Who won, as far as resignations tell.
//!
//! Only fair games of two equal teams are judged: the team that none of the
//! players who resigned belongs to has won.
use crate::error::ParseError;
use crate::record::{PlayerView, Record, RecordView};
use vstd::prelude::*;

verus! {

/// The player has a number and resigned after the start of the game.
pub open spec fn has_resigned(p: PlayerView) -> bool {
    p.index.is_some() && match p.resigned {
        Some(t) => t > 0,
        None => false,
    }
}

/// Some player resigned.
pub open spec fn any_resigned(players: Seq<PlayerView>) -> bool {
    exists|s: int| 0 <= s < players.len() && has_resigned(#[trigger] players[s])
}

/// All who gave up belong to `team`: the players who resigned, or, where
/// none did, the player who recorded the game, if that is known.
pub open spec fn quitters_within(players: Seq<PlayerView>, recorder: Option<u16>, team: Seq<i32>) -> bool {
    if any_resigned(players) {
        forall|s: int|
            0 <= s < players.len() && has_resigned(#[trigger] players[s]) ==> team.contains(
                players[s].index.unwrap(),
            )
    } else {
        match recorder {
            Some(slot) => team.contains(slot as i32),
            None => true,
        }
    }
}

/// The game can be judged: the matchup is known, neither instant building
/// nor cheats are on, and there are two teams of the same size.
pub open spec fn fair_two_sided(r: RecordView) -> bool {
    r.matchup.is_some() && r.instantbuild != Some(true) && r.enablecheats != Some(true)
        && r.teams.len() == 2 && r.teams[0].len() == r.teams[1].len()
}

/// The team that won, 0 or 1, in a game that can be judged.
pub open spec fn winning_team(r: RecordView) -> Option<int> {
    if quitters_within(r.players, r.recorder, r.teams[0]) {
        Some(1)
    } else if quitters_within(r.players, r.recorder, r.teams[1]) {
        Some(0)
    } else {
        None
    }
}

/// A player after the winners are known: a member of either team has won or
/// lost, everyone else is left as before.
pub open spec fn judged(p: PlayerView, winners: Seq<i32>, losers: Seq<i32>) -> PlayerView {
    match p.index {
        Some(idx) => if winners.contains(idx) || losers.contains(idx) {
            PlayerView { winner: Some(winners.contains(idx)), ..p }
        } else {
            p
        },
        None => p,
    }
}

/// The record after the winner was guessed.
pub open spec fn guessed(r: RecordView) -> RecordView {
    if !fair_two_sided(r) {
        r
    } else {
        match winning_team(r) {
            None => RecordView { haswinner: false, ..r },
            Some(w) => RecordView {
                haswinner: true,
                players: Seq::new(
                    r.players.len(),
                    |s: int| judged(r.players[s], r.teams[w], r.teams[1 - w]),
                ),
                ..r
            },
        }
    }
}

/// Whether `team` holds `x`.
pub fn team_contains(team: &Vec<i32>, x: i32) -> (found: bool)
    ensures
        found == team@.contains(x),
{
    let mut i: usize = 0;
    while i < team.len()
        invariant
            i <= team.len(),
            forall|k: int| 0 <= k < i ==> team@[k] != x,
        decreases team.len() - i,
    {
        if team[i] == x {
            return true;
        }
        i = i + 1;
    }
    false
}

/// The number of the player in slot `s`, if the player resigned.
fn resigned_index(r: &Record, s: usize) -> (res: Option<i32>)
    requires
        s < 9,
    ensures
        res.is_some() == has_resigned(r@.players[s as int]),
        res.is_some() ==> res == r@.players[s as int].index,
{
    match (r.players[s].index, r.players[s].resigned) {
        (Some(idx), Some(t)) => {
            if t > 0 {
                Some(idx)
            } else {
                None
            }
        },
        _ => None,
    }
}

/// Whether all who gave up belong to team `t`.
#[verifier::loop_isolation(false)]
fn all_quitters_within(r: &Record, t: usize) -> (res: bool)
    requires
        t < r.teams@.len(),
    ensures
        res == quitters_within(r@.players, r@.recorder, r@.teams[t as int]),
{
    let team = &r.teams[t];
    assert(r@.teams[t as int] == team@);
    let mut any: bool = false;
    let mut all: bool = true;
    let mut s: usize = 0;
    while s < 9
        invariant
            s <= 9,
            r@.players.len() == 9,
            any == exists|k: int| 0 <= k < s && has_resigned(#[trigger] r@.players[k]),
            all == forall|k: int|
                0 <= k < s && has_resigned(#[trigger] r@.players[k]) ==> team@.contains(
                    r@.players[k].index.unwrap(),
                ),
        decreases 9 - s,
    {
        match resigned_index(r, s) {
            Some(idx) => {
                any = true;
                if !team_contains(team, idx) {
                    all = false;
                }
            },
            None => {},
        }
        s = s + 1;
    }
    if any {
        all
    } else {
        match r.recorder {
            Some(slot) => team_contains(team, slot as i32),
            None => true,
        }
    }
}

/// Guesses the winner of a fair game of two equal teams and marks the
/// members of both teams as winners or losers. Any other game is left as it
/// is.
#[verifier::loop_isolation(false)]
pub fn guess(rec: &mut Record) -> (res: Result<(), ParseError>)
    ensures
        final(rec)@ == guessed(old(rec)@),
        res.is_ok(),
{
    if rec.matchup.is_none() {
        return Ok(());
    }
    let unfair: bool = match (rec.instantbuild, rec.enablecheats) {
        (Some(true), _) => true,
        (_, Some(true)) => true,
        _ => false,
    };
    if unfair || rec.teams.len() != 2 || rec.teams[0].len() != rec.teams[1].len() {
        return Ok(());
    }
    let ghost r0 = rec@;
    let w: usize = if all_quitters_within(rec, 0) {
        1
    } else if all_quitters_within(rec, 1) {
        0
    } else {
        rec.haswinner = false;
        return Ok(());
    };
    rec.haswinner = true;
    let mut s: usize = 0;
    while s < 9
        invariant
            s <= 9,
            rec@ == (RecordView { haswinner: true, players: rec@.players, ..r0 }),
            rec@.players.len() == 9,
            forall|k: int|
                0 <= k < 9 ==> #[trigger] rec@.players[k] == if k < s {
                    judged(r0.players[k], r0.teams[w as int], r0.teams[1 - w])
                } else {
                    r0.players[k]
                },
        decreases 9 - s,
    {
        let ghost prev = rec@.players;
        match rec.players[s].index {
            Some(idx) => {
                let won: bool = team_contains(&rec.teams[w], idx);
                let lost: bool = team_contains(&rec.teams[1 - w], idx);
                if won || lost {
                    rec.players[s].winner = Some(won);
                    assert(rec@.players =~= prev.update(
                        s as int,
                        PlayerView { winner: Some(won), ..prev[s as int] },
                    ));
                }
            },
            None => {},
        }
        s = s + 1;
    }
    assert(rec@.players =~= guessed(r0).players);
    Ok(())
}

} // verus!
