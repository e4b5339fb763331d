//! The fingerprint of a match.
//!
//! Different players record the same match in different files. What all of
//! these files agree on (the version, the settings, the first moves, the
//! players) goes into the fingerprint, so that it names the match and not the
//! file.
use crate::cursor::opt_bytes;
use crate::error::ParseError;
use crate::record::{PlayerView, Record, RecordView};
use vstd::prelude::*;

verus! {

/// The lower-case hexadecimal MD5 digest of a byte string.
pub uninterp spec fn md5_hex(data: Seq<u8>) -> Seq<char>;

/// Calls `chksum_hash_md5::hash` on the bytes and `to_hex_lowercase` on the
/// digest. Claimed of them: the text depends on the bytes alone.
#[verifier::external_body]
fn md5_hex_of(data: &[u8]) -> (s: String)
    ensures
        s@ == md5_hex(data@),
{
    chksum_hash_md5::hash(data).to_hex_lowercase()
}

/// The MD5 digest of `data` in lower-case hexadecimal digits.
pub fn md5_of(data: &Vec<u8>) -> (s: String)
    ensures
        s@ == md5_hex(data@),
{
    md5_hex_of(data.as_slice())
}

/// The `n` low bytes of `v`, least significant first.
pub open spec fn le_bytes(v: nat, n: nat) -> Seq<u8>
    decreases n,
{
    if n == 0 {
        Seq::empty()
    } else {
        seq![(v % 256) as u8] + le_bytes(v / 256, (n - 1) as nat)
    }
}

/// The bit pattern of a signed 32-bit number.
pub open spec fn pattern32(v: i32) -> nat {
    if v < 0 {
        (v + 0x1_0000_0000) as nat
    } else {
        v as nat
    }
}

/// Bytes of a machine word.
pub open spec fn word_bytes() -> nat {
    (usize::BITS / 8) as nat
}

/// The bytes of an optional byte string: none where it is absent.
pub open spec fn some_bytes(o: Option<Seq<u8>>) -> Seq<u8> {
    match o {
        Some(b) => b,
        None => Seq::empty(),
    }
}

/// The four bytes of an optional 32-bit number: none where it is absent.
pub open spec fn some_le32(o: Option<u32>) -> Seq<u8> {
    match o {
        Some(v) => le_bytes(v as nat, 4),
        None => Seq::empty(),
    }
}

/// The byte of an optional 8-bit number: none where it is absent.
pub open spec fn some_byte(o: Option<u8>) -> Seq<u8> {
    match o {
        Some(v) => seq![v],
        None => Seq::empty(),
    }
}

/// The first `n` early moves, one after the other.
pub open spec fn moves_bytes(moves: Seq<Seq<u8>>, n: nat) -> Seq<u8>
    decreases n,
{
    if n == 0 || n > moves.len() {
        Seq::empty()
    } else {
        moves_bytes(moves, (n - 1) as nat) + moves[n - 1]
    }
}

/// The first `n` times of early moves, four bytes each.
pub open spec fn times_bytes(times: Seq<u32>, n: nat) -> Seq<u8>
    decreases n,
{
    if n == 0 || n > times.len() {
        Seq::empty()
    } else {
        times_bytes(times, (n - 1) as nat) + le_bytes(times[n - 1] as nat, 4)
    }
}

/// What a player adds to the fingerprint: name, civilization, number, slot,
/// color and team.
pub open spec fn player_bytes(p: PlayerView) -> Seq<u8> {
    some_bytes(p.name_raw) + some_byte(p.civ_raw) + (match p.index {
        Some(idx) => le_bytes(pattern32(idx), 4),
        None => Seq::empty(),
    }) + le_bytes(p.slot as nat, word_bytes()) + some_byte(p.colorid) + some_byte(p.teamid)
}

/// What the first `n` players add to the fingerprint.
pub open spec fn players_bytes(players: Seq<PlayerView>, n: nat) -> Seq<u8>
    decreases n,
{
    if n == 0 || n > players.len() {
        Seq::empty()
    } else {
        players_bytes(players, (n - 1) as nat) + player_bytes(players[n - 1])
    }
}

/// What a record adds to the fingerprint before the players.
pub open spec fn game_bytes(r: RecordView) -> Seq<u8> {
    some_bytes(r.verraw) + some_le32(r.versave) + some_le32(r.verlog) + some_le32(r.verscenario)
        + some_le32(r.mapsize_raw) + some_le32(r.poplimit) + some_le32(r.speed_raw) + some_le32(
        r.mapid,
    ) + moves_bytes(r.debug.earlymovecmd, r.debug.earlymovecmd.len()) + times_bytes(
        r.debug.earlymovetime,
        r.debug.earlymovetime.len(),
    )
}

/// The bytes whose digest is the fingerprint of a record.
pub open spec fn guid_preimage(r: RecordView) -> Seq<u8> {
    game_bytes(r) + players_bytes(r.players, r.players.len())
}

/// The fingerprint of a record.
pub open spec fn guid_of(r: RecordView) -> Seq<char> {
    md5_hex(guid_preimage(r))
}

/// Appends the `n` low bytes of `v`, least significant first.
fn push_le(out: &mut Vec<u8>, v: u64, n: usize)
    ensures
        final(out)@ == old(out)@ + le_bytes(v as nat, n as nat),
{
    let mut rest: u64 = v;
    let mut i: usize = 0;
    assert(out@ =~= old(out)@ + Seq::<u8>::empty());
    while i < n
        invariant
            i <= n,
            out@ + le_bytes(rest as nat, (n - i) as nat) == old(out)@ + le_bytes(v as nat, n as nat),
        decreases n - i,
    {
        let ghost before = out@;
        out.push((rest % 256) as u8);
        assert(before + le_bytes(rest as nat, (n - i) as nat) =~= out@ + le_bytes(
            (rest / 256) as nat,
            (n - i - 1) as nat,
        ));
        rest = rest / 256;
        i = i + 1;
    }
    assert(out@ + le_bytes(rest as nat, 0) =~= out@);
}

/// Appends an optional 32-bit number.
fn push_some_le32(out: &mut Vec<u8>, o: Option<u32>)
    ensures
        final(out)@ == old(out)@ + some_le32(o),
{
    match o {
        Some(v) => {
            push_le(out, v as u64, 4);
        },
        None => {
            assert(out@ =~= old(out)@ + Seq::<u8>::empty());
        },
    }
}

/// Appends an optional 8-bit number.
fn push_some_byte(out: &mut Vec<u8>, o: Option<u8>)
    ensures
        final(out)@ == old(out)@ + some_byte(o),
{
    match o {
        Some(v) => {
            out.push(v);
            assert(out@ =~= old(out)@ + seq![v]);
        },
        None => {
            assert(out@ =~= old(out)@ + Seq::<u8>::empty());
        },
    }
}

/// Appends a byte string.
fn push_bytes(out: &mut Vec<u8>, b: &[u8])
    ensures
        final(out)@ == old(out)@ + b@,
{
    let mut i: usize = 0;
    assert(out@ =~= old(out)@ + b@.subrange(0, 0));
    while i < b.len()
        invariant
            i <= b.len(),
            out@ == old(out)@ + b@.subrange(0, i as int),
        decreases b.len() - i,
    {
        out.push(b[i]);
        i = i + 1;
        assert(out@ =~= old(out)@ + b@.subrange(0, i as int));
    }
    assert(b@.subrange(0, b@.len() as int) =~= b@);
}

/// Appends an optional byte string.
fn push_some_bytes(out: &mut Vec<u8>, o: &Option<Vec<u8>>)
    ensures
        final(out)@ == old(out)@ + some_bytes(opt_bytes(*o)),
{
    match o {
        Some(b) => {
            push_bytes(out, b.as_slice());
        },
        None => {
            assert(out@ =~= old(out)@ + Seq::<u8>::empty());
        },
    }
}

/// The bit pattern of a signed 32-bit number.
fn pattern_of(v: i32) -> (p: u32)
    ensures
        p == pattern32(v),
{
    if v < 0 {
        ((v + 0x7fff_ffff + 1) as u32) + 0x8000_0000
    } else {
        v as u32
    }
}

/// Bytes of a machine word.
fn word_size() -> (n: usize)
    ensures
        n == word_bytes(),
{
    if usize::BITS == 64 {
        8
    } else {
        4
    }
}

/// Appends the version and the settings.
fn push_settings(out: &mut Vec<u8>, rec: &Record)
    ensures
        final(out)@ == old(out)@ + some_bytes(rec@.verraw) + some_le32(rec@.versave) + some_le32(
            rec@.verlog,
        ) + some_le32(rec@.verscenario) + some_le32(rec@.mapsize_raw) + some_le32(rec@.poplimit)
            + some_le32(rec@.speed_raw) + some_le32(rec@.mapid),
{
    push_some_bytes(out, &rec.verraw);
    push_some_le32(out, rec.versave);
    push_some_le32(out, rec.verlog);
    push_some_le32(out, rec.verscenario);
    push_some_le32(out, rec.mapsize_raw);
    push_some_le32(out, rec.poplimit);
    push_some_le32(out, rec.speed_raw);
    push_some_le32(out, rec.mapid);
}

/// Appends the early moves.
fn push_moves(out: &mut Vec<u8>, moves: &Vec<[u8; 19]>)
    ensures
        final(out)@ == old(out)@ + moves_bytes(
            crate::record::move_views(moves@),
            moves@.len() as nat,
        ),
{
    let ghost views = crate::record::move_views(moves@);
    let mut i: usize = 0;
    assert(out@ =~= old(out)@ + moves_bytes(views, 0));
    while i < moves.len()
        invariant
            i <= moves.len(),
            views == crate::record::move_views(moves@),
            out@ == old(out)@ + moves_bytes(views, i as nat),
        decreases moves.len() - i,
    {
        push_bytes(out, moves[i].as_slice());
        i = i + 1;
        assert(out@ =~= old(out)@ + moves_bytes(views, i as nat));
    }
}

/// Appends the times of the early moves.
fn push_times(out: &mut Vec<u8>, times: &Vec<u32>)
    ensures
        final(out)@ == old(out)@ + times_bytes(times@, times@.len() as nat),
{
    let mut k: usize = 0;
    assert(out@ =~= old(out)@ + times_bytes(times@, 0));
    while k < times.len()
        invariant
            k <= times.len(),
            out@ == old(out)@ + times_bytes(times@, k as nat),
        decreases times.len() - k,
    {
        push_le(out, times[k] as u64, 4);
        k = k + 1;
        assert(out@ =~= old(out)@ + times_bytes(times@, k as nat));
    }
}

/// Appends what a player adds to the fingerprint.
fn push_player(out: &mut Vec<u8>, p: &crate::record::Player)
    ensures
        final(out)@ == old(out)@ + player_bytes(p@),
{
    let word: usize = word_size();
    push_some_bytes(out, &p.name_raw);
    push_some_byte(out, p.civ_raw);
    match p.index {
        Some(idx) => {
            push_le(out, pattern_of(idx) as u64, 4);
        },
        None => {
            assert(out@ =~= out@ + Seq::<u8>::empty());
        },
    }
    push_le(out, p.slot as u64, word);
    push_some_byte(out, p.colorid);
    push_some_byte(out, p.teamid);
    assert(out@ =~= old(out)@ + player_bytes(p@));
}

/// The bytes whose digest is the fingerprint of the record.
pub fn guid_bytes(rec: &Record) -> (out: Vec<u8>)
    ensures
        out@ == guid_preimage(rec@),
{
    let mut out: Vec<u8> = Vec::new();
    push_settings(&mut out, rec);
    push_moves(&mut out, &rec.debug.earlymovecmd);
    push_times(&mut out, &rec.debug.earlymovetime);
    let ghost game = out@;
    assert(game =~= game_bytes(rec@));
    let mut s: usize = 0;
    assert(out@ =~= game + players_bytes(rec@.players, 0));
    while s < 9
        invariant
            s <= 9,
            rec@.players.len() == 9,
            out@ == game + players_bytes(rec@.players, s as nat),
        decreases 9 - s,
    {
        push_player(&mut out, &rec.players[s]);
        s = s + 1;
        assert(out@ =~= game + players_bytes(rec@.players, s as nat));
    }
    out
}

/// The fingerprint of the record: the MD5 digest of what all recordings of
/// the same match agree on, in lower-case hexadecimal digits.
pub fn calc_guid(rec: &Record) -> (res: Result<String, ParseError>)
    ensures
        res matches Ok(guid) && guid@ == guid_of(rec@),
{
    let bytes = guid_bytes(rec);
    Ok(md5_of(&bytes))
}

/// Two records that agree on the version, the settings, the early moves and
/// the players have the same fingerprint, whatever else they hold.
pub proof fn lemma_guid_same_match(a: RecordView, b: RecordView)
    requires
        a.verraw == b.verraw,
        a.versave == b.versave,
        a.verlog == b.verlog,
        a.verscenario == b.verscenario,
        a.mapsize_raw == b.mapsize_raw,
        a.poplimit == b.poplimit,
        a.speed_raw == b.speed_raw,
        a.mapid == b.mapid,
        a.debug.earlymovecmd == b.debug.earlymovecmd,
        a.debug.earlymovetime == b.debug.earlymovetime,
        a.players.len() == b.players.len(),
        forall|s: int| 0 <= s < a.players.len() ==> player_bytes(a.players[s]) == player_bytes(b.players[s]),
    ensures
        guid_of(a) == guid_of(b),
{
    lemma_players_bytes_same(a.players, b.players, a.players.len());
}

/// Players that add the same bytes one by one add the same bytes together.
pub proof fn lemma_players_bytes_same(a: Seq<PlayerView>, b: Seq<PlayerView>, n: nat)
    requires
        a.len() == b.len(),
        n <= a.len(),
        forall|s: int| 0 <= s < a.len() ==> player_bytes(a[s]) == player_bytes(b[s]),
    ensures
        players_bytes(a, n) == players_bytes(b, n),
    decreases n,
{
    if n > 0 {
        lemma_players_bytes_same(a, b, (n - 1) as nat);
    }
}

/// The chat has no part in the fingerprint: a record with another chat, or
/// with a chat taken out, has the same one.
pub proof fn lemma_guid_ignores_chat(r: RecordView, chat: Seq<crate::record::ChatView>)
    ensures
        guid_of(RecordView { chat, ..r }) == guid_of(r),
{
}

} // verus!
