//! Teams and matchup, from the diplomacy that each player's block holds.
//!
//! Before a player's block stands what the player thinks of each other
//! player (four bytes each), and before that what each other player thinks of
//! the player (one byte each). Two players are allies when the one byte is 0
//! and the four bytes are 2.
use crate::bytes::{read_i32, read_u8};
use crate::cursor::StreamCursor;
use crate::error::ParseError;
use crate::players::block_of;
use crate::record::{PlayerView, Record, RecordView};
use vstd::prelude::*;
use vstd::seq_lib::to_multiset_insert;

verus! {

/// From a player's block back to the player's own stances.
pub const OWN_STANCES_BACK: usize = 5 + 36;

/// The most players that a game has, GAIA counted.
pub const MAX_PLAYERS: u8 = 9;

/// The stance of an ally, in one byte.
pub const ALLY_TO_ME: u8 = 0;

/// The stance towards an ally, in four bytes.
pub const ALLY_FROM_ME: i32 = 2;

/// Where `x` goes in the ascending `s`, from `k` on: before the first item
/// that is greater.
pub open spec fn place_for(s: Seq<usize>, x: usize, k: int) -> int
    decreases s.len() - k,
{
    if k < 0 || k >= s.len() || s[k] > x {
        k
    } else {
        place_for(s, x, k + 1)
    }
}

/// The first `n` of `sizes` in ascending order.
pub open spec fn sorted_upto(sizes: Seq<usize>, n: nat) -> Seq<usize>
    decreases n,
{
    if n == 0 || n > sizes.len() {
        Seq::empty()
    } else {
        let prev = sorted_upto(sizes, (n - 1) as nat);
        prev.insert(place_for(prev, sizes[n - 1], 0), sizes[n - 1])
    }
}

/// `sizes` in ascending order.
pub open spec fn sort_asc(sizes: Seq<usize>) -> Seq<usize> {
    sorted_upto(sizes, sizes.len())
}

/// No item of `s` is greater than a later one.
pub open spec fn ascending(s: Seq<usize>) -> bool {
    forall|i: int, j: int| 0 <= i <= j < s.len() ==> s[i] <= s[j]
}

/// The place found for `x` lies in the list; what is before it is not
/// greater than `x`, and what is at it is.
pub proof fn lemma_place_for(s: Seq<usize>, x: usize, k: int)
    requires
        0 <= k <= s.len(),
        ascending(s),
    ensures
        k <= place_for(s, x, k) <= s.len(),
        forall|i: int| k <= i < place_for(s, x, k) ==> s[i] <= x,
        forall|i: int| place_for(s, x, k) <= i < s.len() ==> s[i] > x,
    decreases s.len() - k,
{
    if k < s.len() && s[k] <= x {
        lemma_place_for(s, x, k + 1);
    }
}

/// Sorting keeps every size as often as it was there, and puts them in
/// ascending order.
pub proof fn lemma_sorted_upto(sizes: Seq<usize>, n: nat)
    requires
        n <= sizes.len(),
    ensures
        ascending(sorted_upto(sizes, n)),
        sorted_upto(sizes, n).len() == n,
        sorted_upto(sizes, n).to_multiset() == sizes.subrange(0, n as int).to_multiset(),
    decreases n,
{
    if n == 0 {
        assert(sizes.subrange(0, 0) =~= Seq::empty());
    } else {
        let prev = sorted_upto(sizes, (n - 1) as nat);
        let x = sizes[n - 1];
        lemma_sorted_upto(sizes, (n - 1) as nat);
        lemma_place_for(prev, x, 0);
        let k = place_for(prev, x, 0);
        let next = prev.insert(k, x);
        prev.insert_ensures(k, x);
        assert forall|i: int, j: int| 0 <= i <= j < next.len() implies next[i] <= next[j] by {
            if i < k {
                assert(next[i] == prev[i]);
            } else if i > k {
                assert(next[i] == prev[i - 1]);
            }
            if j < k {
                assert(next[j] == prev[j]);
            } else if j > k {
                assert(next[j] == prev[j - 1]);
            }
        }
        to_multiset_insert(prev, k, x);
        assert(sizes.subrange(0, n as int) =~= sizes.subrange(0, n - 1).push(x));
        sizes.subrange(0, n - 1).to_multiset_ensures();
    }
}

/// The matchup is in ascending order and holds the sizes of the teams, each
/// as often as a team has it.
pub proof fn lemma_sort_asc(sizes: Seq<usize>)
    ensures
        ascending(sort_asc(sizes)),
        sort_asc(sizes).len() == sizes.len(),
        sort_asc(sizes).to_multiset() == sizes.to_multiset(),
{
    lemma_sorted_upto(sizes, sizes.len());
    assert(sizes.subrange(0, sizes.len() as int) =~= sizes);
}

/// Sorts sizes in ascending order.
#[verifier::loop_isolation(false)]
pub fn sort_sizes(sizes: &Vec<usize>) -> (out: Vec<usize>)
    ensures
        out@ == sort_asc(sizes@),
        ascending(out@),
        out@.len() == sizes@.len(),
        out@.to_multiset() == sizes@.to_multiset(),
{
    proof {
        lemma_sort_asc(sizes@);
    }
    let mut out: Vec<usize> = Vec::new();
    let mut n: usize = 0;
    while n < sizes.len()
        invariant
            n <= sizes.len(),
            out@ == sorted_upto(sizes@, n as nat),
        decreases sizes.len() - n,
    {
        proof {
            lemma_sorted_upto(sizes@, n as nat);
            lemma_place_for(out@, sizes@[n as int], 0);
        }
        let x: usize = sizes[n];
        let mut k: usize = 0;
        while k < out.len() && out[k] <= x
            invariant
                k <= out.len(),
                place_for(out@, x, k as int) == place_for(out@, x, 0),
            decreases out.len() - k,
        {
            k = k + 1;
        }
        out.insert(k, x);
        n = n + 1;
    }
    out
}

/// The sizes of teams.
pub open spec fn team_sizes(teams: Seq<Seq<i32>>) -> Seq<usize> {
    Seq::new(teams.len(), |i: int| teams[i].len() as usize)
}

/// A team as it grows while the players numbered from `j` on are looked at,
/// and the blocks that are still to be looked at: every ally joins the team
/// and is not looked at again. `None` where a stance cannot be read.
pub open spec fn team_of(
    d: Seq<u8>,
    own: int,
    others: int,
    j: nat,
    total: nat,
    team: Seq<i32>,
    blocks: Seq<Option<usize>>,
) -> Option<(Seq<i32>, Seq<Option<usize>>)>
    decreases total - j,
{
    if j >= total {
        Some((team, blocks))
    } else {
        match (read_u8(d, others + j), read_i32(d, own + 4 * j)) {
            (Some(to_me), Some(from_me)) => if to_me == ALLY_TO_ME && from_me == ALLY_FROM_ME {
                team_of(
                    d,
                    own,
                    others,
                    j + 1,
                    total,
                    team.push(j as i32),
                    blocks.update(j as int, None),
                )
            } else {
                team_of(d, own, others, j + 1, total, team, blocks)
            },
            _ => None,
        }
    }
}

/// The number of the player in a slot and the block found for it, where the
/// player starts a team: it takes part and its block was not yet looked at.
pub open spec fn team_start(pl: PlayerView, blocks: Seq<Option<usize>>) -> Option<(int, int)> {
    match (pl.index, block_of(pl, blocks)) {
        (Some(idx), Some(pos)) => Some((idx as int, pos as int)),
        _ => None,
    }
}

/// The teams after the slots from `i` on were looked at, and the error that
/// ended it, if any. A block with no room for the stances before it breaks
/// the format.
pub open spec fn teams_from(
    d: Seq<u8>,
    i: nat,
    total: nat,
    players: Seq<PlayerView>,
    blocks: Seq<Option<usize>>,
    teams: Seq<Seq<i32>>,
) -> (Seq<Seq<i32>>, Option<ParseError>)
    decreases 9 - i,
{
    if i >= 9 {
        (teams, None)
    } else {
        match team_start(players[i as int], blocks) {
            None => teams_from(d, i + 1, total, players, blocks, teams),
            Some((idx, pos)) => if pos < OWN_STANCES_BACK + total {
                (teams, Some(ParseError::Corrupt))
            } else {
                let own = pos - OWN_STANCES_BACK;
                match team_of(d, own, own - total, (idx + 1) as nat, total, seq![idx as i32], blocks) {
                    None => (teams, Some(ParseError::Truncated)),
                    Some((team, rest)) => teams_from(
                        d,
                        i + 1,
                        total,
                        players,
                        rest.update(idx, None),
                        teams.push(team),
                    ),
                }
            },
        }
    }
}

/// The teams stage: the teams, and the matchup where all teams were found.
/// More than nine players break the format.
#[verifier::opaque]
pub open spec fn st_teams(d: Seq<u8>, r: RecordView) -> (RecordView, Option<ParseError>) {
    match r.totalplayers {
        None => (r, Some(ParseError::Truncated)),
        Some(total) => if total > MAX_PLAYERS {
            (r, Some(ParseError::Corrupt))
        } else {
            let found = teams_from(
                d,
                1,
                total as nat,
                r.players,
                r.debug.playerinitpos_by_idx,
                r.teams,
            );
            let r1 = RecordView { teams: found.0, ..r };
            if found.1.is_some() {
                (r1, found.1)
            } else {
                (RecordView { matchup: Some(sort_asc(team_sizes(found.0))), ..r1 }, None)
            }
        },
    }
}

/// Where all teams were found, the matchup is there: as many sizes as teams,
/// in ascending order, each size as often as a team has it.
pub proof fn lemma_matchup_sorted(d: Seq<u8>, r: RecordView)
    requires
        st_teams(d, r).1.is_none(),
    ensures
        st_teams(d, r).0.matchup.is_some(),
        ascending(st_teams(d, r).0.matchup.unwrap()),
        st_teams(d, r).0.matchup.unwrap().len() == st_teams(d, r).0.teams.len(),
        st_teams(d, r).0.matchup.unwrap().to_multiset() == team_sizes(
            st_teams(d, r).0.teams,
        ).to_multiset(),
{
    reveal(st_teams);
    lemma_sort_asc(team_sizes(st_teams(d, r).0.teams));
}

/// Looks at the players numbered from `from` on and adds the allies to the
/// team; false where a stance cannot be read.
#[verifier::loop_isolation(false)]
fn grow_team(
    h: &mut StreamCursor,
    own: usize,
    others: usize,
    from: usize,
    total: usize,
    team: &mut Vec<i32>,
    blocks: &mut [Option<usize>; 9],
) -> (ok: bool)
    requires
        total <= 9,
        others + total == own,
        own + OWN_STANCES_BACK <= usize::MAX,
    ensures
        match team_of(
            old(h)@.data(),
            own as int,
            others as int,
            from as nat,
            total as nat,
            old(team)@,
            old(blocks)@,
        ) {
            Some((t, b)) => ok && final(team)@ == t && final(blocks)@ == b,
            None => !ok,
        },
        final(h)@ == old(h)@.at(final(h)@.pos as int),
{
    let ghost d = h@.data();
    let mut j: usize = from;
    while j < total
        invariant
            h@ == old(h)@.at(h@.pos as int),
            team_of(d, own as int, others as int, j as nat, total as nat, team@, blocks@)
                == team_of(
                d,
                own as int,
                others as int,
                from as nat,
                total as nat,
                old(team)@,
                old(blocks)@,
            ),
        decreases total - j,
    {
        h.seek(others + j);
        let to_me = h.get_u8();
        h.seek(own + j * 4);
        let from_me = h.get_i32();
        match (to_me, from_me) {
            (Some(a), Some(b)) => {
                if a == ALLY_TO_ME && b == ALLY_FROM_ME {
                    team.push(j as i32);
                    blocks[j] = None;
                }
            },
            _ => {
                return false;
            },
        }
        j = j + 1;
    }
    true
}

/// The number of the player in slot `i` and the block found for it, where
/// the player starts a team.
fn start_of(r: &Record, i: usize, blocks: &[Option<usize>; 9]) -> (res: Option<(usize, usize)>)
    requires
        i < 9,
    ensures
        match team_start(r@.players[i as int], blocks@) {
            Some((idx, pos)) => res == Some((idx as usize, pos as usize)) && 0 <= idx < 9,
            None => res.is_none(),
        },
{
    if !r.players[i].isvalid() {
        return None;
    }
    match r.players[i].index {
        Some(idx) => {
            if idx < 0 || idx > 8 {
                return None;
            }
            match blocks[idx as usize] {
                Some(pos) => Some((idx as usize, pos)),
                None => None,
            }
        },
        None => None,
    }
}

/// The sizes of the teams.
#[verifier::loop_isolation(false)]
fn sizes_of(teams: &Vec<Vec<i32>>) -> (sizes: Vec<usize>)
    ensures
        sizes@ == team_sizes(crate::record::team_views(teams@)),
{
    let mut sizes: Vec<usize> = Vec::new();
    let mut i: usize = 0;
    while i < teams.len()
        invariant
            i <= teams.len(),
            sizes@.len() == i,
            forall|k: int| 0 <= k < i ==> sizes@[k] == teams@[k]@.len(),
        decreases teams.len() - i,
    {
        sizes.push(teams[i].len());
        i = i + 1;
    }
    assert(sizes@ =~= team_sizes(crate::record::team_views(teams@)));
    sizes
}

/// Builds the teams from the diplomacy of the players whose blocks were
/// found, and the matchup from the teams.
#[verifier::loop_isolation(false)]
pub fn build_teams(h: &mut StreamCursor, r: &mut Record) -> (res: Result<(), ParseError>)
    ensures
        final(r)@ == st_teams(old(h)@.data(), old(r)@).0,
        match st_teams(old(h)@.data(), old(r)@).1 {
            Some(e) => res == Err::<(), ParseError>(e),
            None => res.is_ok(),
        },
        final(h)@ == old(h)@.at(final(h)@.pos as int),
        res.is_ok() ==> final(r)@.matchup.is_some() && ascending(final(r)@.matchup.unwrap()),
{
    reveal(st_teams);
    let ghost d = h@.data();
    let ghost r0 = r@;
    proof {
        if st_teams(d, r0).1.is_none() {
            lemma_matchup_sorted(d, r0);
        }
    }
    let total: usize = match r.totalplayers {
        Some(t) => {
            if t > MAX_PLAYERS {
                return Err(ParseError::Corrupt);
            }
            t as usize
        },
        None => {
            return Err(ParseError::Truncated);
        },
    };
    let mut blocks: [Option<usize>; 9] = r.debug.playerinitpos_by_idx;
    let mut i: usize = 1;
    while i < 9
        invariant
            1 <= i <= 9,
            h@ == old(h)@.at(h@.pos as int),
            r@ == (RecordView { teams: r@.teams, ..r0 }),
            teams_from(d, i as nat, total as nat, r0.players, blocks@, r@.teams) == teams_from(
                d,
                1,
                total as nat,
                r0.players,
                r0.debug.playerinitpos_by_idx,
                r0.teams,
            ),
        decreases 9 - i,
    {
        match start_of(r, i, &blocks) {
            Some((idx, pos)) => {
                if pos < OWN_STANCES_BACK + total {
                    return Err(ParseError::Corrupt);
                }
                let own: usize = pos - OWN_STANCES_BACK;
                let mut team: Vec<i32> = Vec::new();
                team.push(idx as i32);
                assert(team@ =~= seq![idx as i32]);
                if !grow_team(h, own, own - total, idx + 1, total, &mut team, &mut blocks) {
                    return Err(ParseError::Truncated);
                }
                blocks[idx] = None;
                let ghost before = r@.teams;
                let ghost grown = team@;
                r.teams.push(team);
                assert(r@.teams =~= before.push(grown));
            },
            None => {},
        }
        i = i + 1;
    }
    let sizes = sizes_of(&r.teams);
    r.matchup = Some(sort_sizes(&sizes));
    Ok(())
}

} // verus!
