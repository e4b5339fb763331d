use mgx::guess_winner::{guess, team_contains};
use mgx::guid::{calc_guid, guid_bytes, md5_of};
use mgx::players::same_bytes;
use mgx::teams::sort_sizes;
use mgx::{Player, Record, Stream};

fn record() -> Record {
    Record::new("game.mgx".to_string(), 10, 20)
}

fn two_teams() -> Record {
    let mut r = record();
    for s in 1..5 {
        r.players[s].index = Some(s as i32);
        r.players[s].playertype = Some(2);
    }
    r.teams = vec![vec![1, 3], vec![2, 4]];
    r.matchup = Some(vec![2, 2]);
    r
}

#[test]
fn new_record_is_empty() {
    let r = record();
    assert_eq!(r.filename, "game.mgx");
    assert_eq!(r.filesize, 10);
    assert_eq!(r.lastmod, 20);
    assert_eq!(r.duration, 0);
    assert_eq!(r.ver, None);
    assert_eq!(r.md5, None);
    assert_eq!(r.guid, None);
    assert_eq!(r.matchup, None);
    assert!(r.chat.is_empty());
    assert!(r.teams.is_empty());
    assert!(!r.haswinner);
    assert_eq!(r.debug.earlymovecount, 0);
    assert_eq!(r.debug.mappos, None);
    assert_eq!(r.debug.playerinitpos_by_idx, [None; 9]);
    assert_eq!(f64::from_bits(r.debug.triggersign), 1.6);
    for (s, p) in r.players.iter().enumerate() {
        assert_eq!(p.slot, s);
        assert_eq!(p.index, None);
        assert!(!p.isvalid());
    }
}

#[test]
fn player_is_valid_with_type_two_to_five() {
    let mut p = Player::new(3);
    assert_eq!(p.slot, 3);
    assert_eq!(p.name_raw, None);
    assert_eq!(p.winner, None);
    assert!(!p.isvalid());
    for (kind, valid) in [(-1, false), (0, false), (1, false), (2, true), (3, true), (4, true), (5, true), (6, false), (i32::MAX, false), (i32::MIN, false)] {
        p.playertype = Some(kind);
        assert_eq!(p.isvalid(), valid);
    }
}

#[test]
fn stream_keeps_the_file() {
    let mut s = Stream::new(vec![1, 2, 3]);
    assert_eq!(s.get_file(), &[1, 2, 3]);
    assert!(s.get_header().is_empty());
    assert!(s.header_decompressed.is_empty());
    s.header_decompressed = vec![7, 8];
    assert_eq!(s.get_header(), &[7, 8]);
}

#[test]
fn sizes_are_sorted_ascending() {
    assert_eq!(sort_sizes(&vec![]), Vec::<usize>::new());
    assert_eq!(sort_sizes(&vec![4]), vec![4]);
    assert_eq!(sort_sizes(&vec![4, 4]), vec![4, 4]);
    assert_eq!(sort_sizes(&vec![7, 1]), vec![1, 7]);
    assert_eq!(sort_sizes(&vec![3, 1, 2, 1, 3, 0]), vec![0, 1, 1, 2, 3, 3]);
    assert_eq!(sort_sizes(&vec![1, 2, 3, 4]), vec![1, 2, 3, 4]);
    assert_eq!(sort_sizes(&vec![usize::MAX, 0, 5]), vec![0, 5, usize::MAX]);
    let sorted = sort_sizes(&vec![9, 8, 7, 6, 5, 4, 3, 2, 1]);
    assert!(sorted.windows(2).all(|w| w[0] <= w[1]));
    assert_eq!(sorted.len(), 9);
}

#[test]
fn team_membership_and_byte_equality() {
    assert!(team_contains(&vec![1, 3], 3));
    assert!(!team_contains(&vec![1, 3], 2));
    assert!(!team_contains(&vec![], 0));
    assert!(same_bytes(&vec![], &vec![]));
    assert!(same_bytes(&vec![1, 2], &vec![1, 2]));
    assert!(!same_bytes(&vec![1, 2], &vec![1, 3]));
    assert!(!same_bytes(&vec![1, 2], &vec![1]));
}

#[test]
fn team_whose_members_resigned_loses() {
    let mut r = two_teams();
    r.players[1].resigned = Some(100);
    r.players[3].resigned = Some(200);
    assert_eq!(guess(&mut r), Ok(()));
    assert!(r.haswinner);
    assert_eq!(r.players[1].winner, Some(false));
    assert_eq!(r.players[3].winner, Some(false));
    assert_eq!(r.players[2].winner, Some(true));
    assert_eq!(r.players[4].winner, Some(true));
    assert_eq!(r.players[0].winner, None);
    assert_eq!(r.players[8].winner, None);
}

#[test]
fn one_resignation_is_enough() {
    let mut r = two_teams();
    r.players[4].resigned = Some(1);
    assert_eq!(guess(&mut r), Ok(()));
    assert!(r.haswinner);
    assert_eq!(r.players[1].winner, Some(true));
    assert_eq!(r.players[4].winner, Some(false));
}

#[test]
fn resignations_on_both_sides_leave_no_winner() {
    let mut r = two_teams();
    r.haswinner = true;
    r.players[1].resigned = Some(100);
    r.players[2].resigned = Some(200);
    assert_eq!(guess(&mut r), Ok(()));
    assert!(!r.haswinner);
    for p in r.players.iter() {
        assert_eq!(p.winner, None);
    }
}

#[test]
fn without_resignations_the_recorder_has_left() {
    let mut r = two_teams();
    r.recorder = Some(2);
    assert_eq!(guess(&mut r), Ok(()));
    assert!(r.haswinner);
    assert_eq!(r.players[1].winner, Some(true));
    assert_eq!(r.players[2].winner, Some(false));

    let mut r = two_teams();
    r.recorder = Some(3);
    r.players[4].resigned = Some(0);
    assert_eq!(guess(&mut r), Ok(()));
    assert!(r.haswinner);
    assert_eq!(r.players[3].winner, Some(false));
    assert_eq!(r.players[4].winner, Some(true));

    let mut r = two_teams();
    r.recorder = Some(7);
    assert_eq!(guess(&mut r), Ok(()));
    assert!(!r.haswinner);
    assert_eq!(r.players[1].winner, None);
}

#[test]
fn unfair_games_are_not_judged() {
    let resigned = || {
        let mut r = two_teams();
        r.players[1].resigned = Some(100);
        r
    };
    let mut r = resigned();
    r.matchup = None;
    assert_eq!(guess(&mut r), Ok(()));
    assert!(!r.haswinner);
    assert_eq!(r.players[2].winner, None);

    let mut r = resigned();
    r.instantbuild = Some(true);
    assert_eq!(guess(&mut r), Ok(()));
    assert!(!r.haswinner);

    let mut r = resigned();
    r.enablecheats = Some(true);
    assert_eq!(guess(&mut r), Ok(()));
    assert!(!r.haswinner);

    let mut r = resigned();
    r.instantbuild = Some(false);
    r.enablecheats = Some(false);
    assert_eq!(guess(&mut r), Ok(()));
    assert!(r.haswinner);

    let mut r = resigned();
    r.teams = vec![vec![1, 3], vec![2]];
    assert_eq!(guess(&mut r), Ok(()));
    assert!(!r.haswinner);

    let mut r = resigned();
    r.teams = vec![vec![1], vec![2], vec![3]];
    assert_eq!(guess(&mut r), Ok(()));
    assert!(!r.haswinner);
    assert_eq!(r.players[1].winner, None);

    let mut r = resigned();
    r.teams = vec![vec![1, 2, 3, 4]];
    assert_eq!(guess(&mut r), Ok(()));
    assert!(!r.haswinner);
}

#[test]
fn md5_of_known_texts() {
    assert_eq!(md5_of(&vec![]), "d41d8cd98f00b204e9800998ecf8427e");
    assert_eq!(md5_of(&b"abc".to_vec()), "900150983cd24fb0d6963f7d28e17f72");
    assert_eq!(
        md5_of(&b"The quick brown fox jumps over the lazy dog".to_vec()),
        "9e107d9d372bb6826bd81d3542a419d6"
    );
}

#[test]
fn guid_of_an_empty_record_holds_the_slots() {
    let r = record();
    let bytes = guid_bytes(&r);
    let mut want = Vec::new();
    for s in 0..9usize {
        want.extend_from_slice(&s.to_le_bytes());
    }
    assert_eq!(bytes, want);
    assert_eq!(calc_guid(&r), Ok(md5_of(&want)));
}

#[test]
fn guid_bytes_follow_the_order_of_the_fields() {
    let mut r = record();
    r.verraw = Some(b"VER 9.4".to_vec());
    r.versave = Some(11.76f32.to_bits());
    r.verlog = Some(3);
    r.verscenario = Some(1.22f32.to_bits());
    r.mapsize_raw = Some(2);
    r.poplimit = Some(200);
    r.speed_raw = Some(150);
    r.mapid = Some(9);
    r.debug.earlymovecmd = vec![[7; 19], [8; 19]];
    r.debug.earlymovetime = vec![1000, 0x01020304];
    r.players[1].name_raw = Some(b"Alice".to_vec());
    r.players[1].civ_raw = Some(5);
    r.players[1].index = Some(-2);
    r.players[1].colorid = Some(3);
    r.players[1].teamid = Some(1);
    r.duration = 77;
    r.filename = "other".to_string();
    let mut want = Vec::new();
    want.extend_from_slice(b"VER 9.4");
    want.extend_from_slice(&11.76f32.to_le_bytes());
    want.extend_from_slice(&3u32.to_le_bytes());
    want.extend_from_slice(&1.22f32.to_le_bytes());
    want.extend_from_slice(&2u32.to_le_bytes());
    want.extend_from_slice(&200u32.to_le_bytes());
    want.extend_from_slice(&150u32.to_le_bytes());
    want.extend_from_slice(&9u32.to_le_bytes());
    want.extend_from_slice(&[7; 19]);
    want.extend_from_slice(&[8; 19]);
    want.extend_from_slice(&1000u32.to_le_bytes());
    want.extend_from_slice(&[4, 3, 2, 1]);
    want.extend_from_slice(&0usize.to_le_bytes());
    want.extend_from_slice(b"Alice");
    want.push(5);
    want.extend_from_slice(&(-2i32).to_le_bytes());
    want.extend_from_slice(&1usize.to_le_bytes());
    want.push(3);
    want.push(1);
    for s in 2..9usize {
        want.extend_from_slice(&s.to_le_bytes());
    }
    assert_eq!(guid_bytes(&r), want);
}

#[test]
fn guid_of_a_known_record() {
    let mut r = record();
    r.verraw = Some(b"VER 9.4".to_vec());
    r.versave = Some(0x413c28f6);
    r.verlog = Some(3);
    r.players[1].name_raw = Some(b"Alice".to_vec());
    r.players[1].index = Some(1);
    assert_eq!(calc_guid(&r), Ok("c133572f36006ad8ba306df0400680ff".to_string()));
}

#[test]
fn guid_ignores_chat_and_duration() {
    let mut r = two_teams();
    let before = calc_guid(&r);
    r.chat.push(mgx::Chat { time: Some(5), player: None, content_raw: Some(b"@#1--note--".to_vec()), content: None });
    r.chat.push(mgx::Chat { time: None, player: None, content_raw: Some(b"hello".to_vec()), content: None });
    r.duration = 99;
    r.recorder = Some(4);
    r.haswinner = true;
    assert_eq!(calc_guid(&r), before);
    r.chat.clear();
    assert_eq!(calc_guid(&r), before);
    r.players[1].teamid = Some(2);
    assert_ne!(calc_guid(&r), before);
}
