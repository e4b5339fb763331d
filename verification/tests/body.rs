use mgx::body_parser::{apply_op, is_chat_hidden, parse_body, read_op, BodyOp};
use mgx::parser::read_preamble;
use mgx::{ParseError, Record, StreamCursor, Version};

fn record(ver: Version) -> Record {
    let mut r = Record::new("game.mgx".to_string(), 0, 0);
    r.ver = Some(ver);
    r
}

fn sync(delta: i32, tag: i32) -> Vec<u8> {
    let mut v = Vec::new();
    v.extend_from_slice(&2i32.to_le_bytes());
    v.extend_from_slice(&delta.to_le_bytes());
    v.extend_from_slice(&tag.to_le_bytes());
    if tag != 3 {
        v.extend_from_slice(&[0xaa; 28]);
    }
    v.extend_from_slice(&[0xbb; 12]);
    v
}

fn viewlock() -> Vec<u8> {
    let mut v = Vec::new();
    v.extend_from_slice(&3i32.to_le_bytes());
    v.extend_from_slice(&[0xcc; 12]);
    v
}

fn chat(msg: &[u8]) -> Vec<u8> {
    let mut v = Vec::new();
    v.extend_from_slice(&4i32.to_le_bytes());
    v.extend_from_slice(&(-1i32).to_le_bytes());
    v.extend_from_slice(&(msg.len() as i32).to_le_bytes());
    v.extend_from_slice(msg);
    v
}

fn command(body: &[u8]) -> Vec<u8> {
    let mut v = Vec::new();
    v.extend_from_slice(&1i32.to_le_bytes());
    v.extend_from_slice(&(body.len() as u32).to_le_bytes());
    v.extend_from_slice(body);
    v.extend_from_slice(&[0xdd; 4]);
    v
}

fn resign(slot: i8, disconnected: bool) -> Vec<u8> {
    command(&[0x0b, 0x55, slot as u8, if disconnected { 1 } else { 0 }, 0, 0, 0, 0x77])
}

fn research(index: i8, tech: i16) -> Vec<u8> {
    let mut body = vec![0x65, 1, 2, 3, 4, 5, 6, 7, index as u8, 0x99];
    body.extend_from_slice(&tech.to_le_bytes());
    body.extend_from_slice(&[0; 4]);
    command(&body)
}

fn movement(fill: u8) -> Vec<u8> {
    let mut body = vec![0x03];
    for i in 0..19u8 {
        body.push(fill.wrapping_add(i));
    }
    body.extend_from_slice(&[0xee; 5]);
    command(&body)
}

fn run(ver: Version, stream: &[Vec<u8>]) -> (Record, Result<(), ParseError>, usize) {
    let mut r = record(ver);
    let mut b = StreamCursor::new(stream.concat(), 0);
    let res = parse_body(&mut b, &mut r);
    (r, res, b.tell())
}

#[test]
fn duration_is_the_sum_of_sync_deltas() {
    let (r, res, at) = run(
        Version::AoC10c,
        &[sync(25, 0), viewlock(), sync(1000, 3), sync(0, 0), chat(b"gl hf\0"), sync(40, 1)],
    );
    assert_eq!(res, Ok(()));
    assert_eq!(r.duration, 1065);
    assert_eq!(at, 52 + 16 + 24 + 52 + 18 + 52);
}

#[test]
fn duration_adds_to_what_was_there() {
    let mut r = record(Version::AoC10c);
    r.duration = 5000;
    let mut b = StreamCursor::new([sync(7, 3), sync(8, 3)].concat(), 0);
    assert_eq!(parse_body(&mut b, &mut r), Ok(()));
    assert_eq!(r.duration, 5015);
}

#[test]
fn sync_delta_out_of_range_is_corrupt() {
    let (r, res, _) = run(Version::AoC10c, &[sync(10, 3), sync(1001, 3), sync(10, 3)]);
    assert_eq!(res, Err(ParseError::Corrupt));
    assert_eq!(r.duration, 10);
    let (r, res, _) = run(Version::UP15, &[sync(10, 3), sync(-1, 3), sync(10, 3)]);
    assert_eq!(res, Err(ParseError::Corrupt));
    assert_eq!(r.duration, 10);
    let (r, res, _) = run(Version::UP15, &[sync(1000, 3), sync(0, 3)]);
    assert_eq!(res, Ok(()));
    assert_eq!(r.duration, 1000);
}

#[test]
fn duration_that_no_longer_fits_is_corrupt() {
    let mut r = record(Version::AoC10c);
    r.duration = u32::MAX - 5;
    let mut b = StreamCursor::new([sync(5, 3), sync(1, 3)].concat(), 0);
    assert_eq!(parse_body(&mut b, &mut r), Err(ParseError::Corrupt));
    assert_eq!(r.duration, u32::MAX);
}

#[test]
fn sync_without_its_tag_counts_and_is_truncated() {
    let mut stream = sync(10, 3);
    stream.extend_from_slice(&2i32.to_le_bytes());
    stream.extend_from_slice(&30i32.to_le_bytes());
    let mut r = record(Version::AoC10c);
    let mut b = StreamCursor::new(stream, 0);
    assert_eq!(parse_body(&mut b, &mut r), Err(ParseError::Truncated));
    assert_eq!(r.duration, 40);
}

#[test]
fn body_ends_when_fewer_than_eight_bytes_are_left() {
    let mut stream = sync(10, 3);
    stream.extend_from_slice(&[2, 0, 0, 0, 9, 0, 0]);
    let mut r = record(Version::AoK);
    let mut b = StreamCursor::new(stream, 0);
    assert_eq!(parse_body(&mut b, &mut r), Ok(()));
    assert_eq!(r.duration, 10);
    assert_eq!(b.remain(), 7);
    let (r, res, at) = run(Version::AoK, &[]);
    assert_eq!(res, Ok(()));
    assert_eq!(r.duration, 0);
    assert_eq!(at, 0);
}

#[test]
fn command_cut_off_by_the_end_of_the_file_ends_the_body_cleanly() {
    let mut cut = resign(1, false);
    cut.truncate(11);
    let mut r = record(Version::AoC10c);
    r.players[1].playertype = Some(2);
    let mut b = StreamCursor::new([sync(10, 3), cut].concat(), 0);
    assert_eq!(parse_body(&mut b, &mut r), Ok(()));
    assert_eq!(b.remain(), 0);
    assert_eq!(r.duration, 10);
    assert_eq!(r.players[1].resigned, Some(10));
    assert_eq!(r.players[1].disconnected, None);

    let mut bare = Vec::new();
    bare.extend_from_slice(&1i32.to_le_bytes());
    bare.extend_from_slice(&100u32.to_le_bytes());
    let mut r = record(Version::AoC10c);
    let mut b = StreamCursor::new(bare, 0);
    assert_eq!(parse_body(&mut b, &mut r), Ok(()));
    assert_eq!(b.remain(), 0);
}

#[test]
fn command_length_decides_where_the_next_operation_starts() {
    let mut long = vec![0x0b, 0, 1];
    long.extend_from_slice(&[0; 40]);
    let mut r = record(Version::AoC10c);
    r.players[1].playertype = Some(4);
    let mut b = StreamCursor::new([command(&long), sync(3, 3), command(&[0x77]), sync(4, 3)].concat(), 0);
    assert_eq!(parse_body(&mut b, &mut r), Ok(()));
    assert_eq!(r.duration, 7);
    assert_eq!(r.players[1].resigned, Some(0));
}

#[test]
fn resign_marks_a_valid_player() {
    let mut r = record(Version::AoC10a);
    r.players[2].playertype = Some(2);
    r.players[3].playertype = Some(1);
    r.players[8].playertype = Some(5);
    let stream = [sync(500, 3), resign(2, true), sync(500, 3), resign(3, false), resign(8, false), resign(9, false), resign(-1, true)];
    let mut b = StreamCursor::new(stream.concat(), 0);
    assert_eq!(parse_body(&mut b, &mut r), Ok(()));
    assert_eq!(r.players[2].resigned, Some(500));
    assert_eq!(r.players[2].disconnected, Some(true));
    assert_eq!(r.players[3].resigned, None);
    assert_eq!(r.players[3].disconnected, None);
    assert_eq!(r.players[8].resigned, Some(1000));
    assert_eq!(r.players[8].disconnected, Some(false));
    for s in [0, 1, 4, 5, 6, 7] {
        assert_eq!(r.players[s].resigned, None);
    }
}

#[test]
fn research_sets_the_time_an_age_is_reached() {
    let mut r = record(Version::AoC10a);
    r.players[1].index = Some(4);
    r.players[2].index = Some(6);
    r.players[2].civ_raw = Some(8);
    r.players[3].index = Some(4);
    let stream = [
        sync(1000, 3),
        research(4, 101),
        research(6, 101),
        sync(1000, 3),
        research(4, 102),
        research(6, 102),
        sync(1000, 3),
        research(4, 103),
        research(6, 103),
        research(4, 100),
        research(7, 101),
    ];
    let mut b = StreamCursor::new(stream.concat(), 0);
    assert_eq!(parse_body(&mut b, &mut r), Ok(()));
    assert_eq!(r.players[1].feudaltime, Some(131000));
    assert_eq!(r.players[1].castletime, Some(162000));
    assert_eq!(r.players[1].imperialtime, Some(193000));
    assert_eq!(r.players[2].feudaltime, Some(131000));
    assert_eq!(r.players[2].castletime, Some(2000 + 145454));
    assert_eq!(r.players[2].imperialtime, Some(3000 + 172727));
    assert_eq!(r.players[3].feudaltime, None);
    assert_eq!(r.players[3].castletime, None);
    assert_eq!(r.players[0].feudaltime, None);
}

#[test]
fn research_time_that_does_not_fit_is_left_out() {
    let mut r = record(Version::AoC10a);
    r.duration = u32::MAX - 130000;
    r.players[1].index = Some(1);
    assert_eq!(apply_op(&mut r, BodyOp::Research { index: 1, tech: 101 }), Ok(()));
    assert_eq!(r.players[1].feudaltime, Some(u32::MAX));
    assert_eq!(apply_op(&mut r, BodyOp::Research { index: 1, tech: 102 }), Ok(()));
    assert_eq!(r.players[1].castletime, None);
}

#[test]
fn first_five_moves_are_kept() {
    let mut stream = Vec::new();
    for i in 0..7u8 {
        stream.push(sync(100, 3));
        stream.push(movement(i * 20));
    }
    let (r, res, _) = run(Version::UP15, &stream);
    assert_eq!(res, Ok(()));
    assert_eq!(r.debug.earlymovecount, 5);
    assert_eq!(r.debug.earlymovecmd.len(), 5);
    assert_eq!(r.debug.earlymovetime, vec![100, 200, 300, 400, 500]);
    for (i, cmd) in r.debug.earlymovecmd.iter().enumerate() {
        assert_eq!(cmd.len(), 19);
        let first = (i as u8) * 20;
        let want: Vec<u8> = (0..19u8).map(|k| first + k).collect();
        assert_eq!(cmd.to_vec(), want);
    }
}

#[test]
fn move_with_fewer_than_nineteen_bytes_left_is_not_kept() {
    let mut cut = movement(1);
    cut.truncate(8 + 1 + 18);
    let (r, res, _) = run(Version::UP15, &[cut]);
    assert_eq!(res, Ok(()));
    assert_eq!(r.debug.earlymovecount, 0);
    assert!(r.debug.earlymovecmd.is_empty());
    assert!(r.debug.earlymovetime.is_empty());
    let mut exact = movement(1);
    exact.truncate(8 + 1 + 19);
    let (r, res, _) = run(Version::UP15, &[exact]);
    assert_eq!(res, Ok(()));
    assert_eq!(r.debug.earlymovecount, 1);
}

#[test]
fn chats_get_the_time_and_lose_the_nul() {
    let (r, res, _) = run(Version::AoC10c, &[sync(700, 3), chat(b"hello\0"), sync(300, 3), chat(b"@#1gg")]);
    assert_eq!(res, Ok(()));
    assert_eq!(r.chat.len(), 2);
    assert_eq!(r.chat[0].time, Some(700));
    assert_eq!(r.chat[0].player, None);
    assert_eq!(r.chat[0].content_raw, Some(b"hello".to_vec()));
    assert_eq!(r.chat[1].time, Some(1000));
    assert_eq!(r.chat[1].content_raw, Some(b"@#1gg".to_vec()));
}

#[test]
fn hidden_chats_are_dropped() {
    let (r, res, _) = run(
        Version::AoC10c,
        &[chat(b"@#0--Player resigned--\0"), chat(b"\0"), chat(b""), chat(b"@#1--x--"), chat(b"kept"), chat(b"@#1----")],
    );
    assert_eq!(res, Ok(()));
    assert_eq!(r.chat.len(), 1);
    assert_eq!(r.chat[0].content_raw, Some(b"kept".to_vec()));
}

#[test]
fn chat_filter_matches_the_note_pattern_only() {
    assert!(is_chat_hidden(&b"".to_vec()));
    assert!(is_chat_hidden(&b"@#1----".to_vec()));
    assert!(is_chat_hidden(&b"@#9--wololo--".to_vec()));
    assert!(is_chat_hidden(&b"@#x--a--".to_vec()));
    assert!(!is_chat_hidden(&b"@#1---".to_vec()));
    assert!(!is_chat_hidden(&b"@#1--a-".to_vec()));
    assert!(!is_chat_hidden(&b"@#1-+a--".to_vec()));
    assert!(!is_chat_hidden(&b"#@1--a--".to_vec()));
    assert!(!is_chat_hidden(&b"a#1--a--".to_vec()));
    assert!(!is_chat_hidden(&b"@#12--a--".to_vec()));
    assert!(!is_chat_hidden(&b"x".to_vec()));
    assert!(!is_chat_hidden(&b"--".to_vec()));
}

#[test]
fn chat_command_500_is_skipped_by_dialect() {
    let mut skip = Vec::new();
    skip.extend_from_slice(&4i32.to_le_bytes());
    skip.extend_from_slice(&500i32.to_le_bytes());
    let mut aoc = skip.clone();
    aoc.extend_from_slice(&[0; 20]);
    let (r, res, at) = run(Version::AoC10c, &[aoc.clone(), sync(9, 3)]);
    assert_eq!((res, r.duration, at), (Ok(()), 9, 28 + 24));
    let mut aok = skip.clone();
    aok.extend_from_slice(&[0; 32]);
    let (r, res, at) = run(Version::AoK, &[aok.clone(), sync(9, 3)]);
    assert_eq!((res, r.duration, at), (Ok(()), 9, 40 + 24));
    let (r, res, at) = run(Version::AoKTrial, &[aok, sync(9, 3)]);
    assert_eq!((res, r.duration, at), (Ok(()), 9, 40 + 24));
    let (r, res, at) = run(Version::UP15, &[aoc, viewlock()]);
    assert_eq!((res, r.duration, at), (Ok(()), 0, 28 + 16));
}

#[test]
fn bad_chat_is_an_error_in_strict_dialects_only() {
    let mut long = Vec::new();
    long.extend_from_slice(&4i32.to_le_bytes());
    long.extend_from_slice(&(-1i32).to_le_bytes());
    long.extend_from_slice(&1000i32.to_le_bytes());
    long.extend_from_slice(&[b'a'; 16]);
    for ver in [Version::AoK, Version::AoKTrial, Version::AoC, Version::AoCTrial, Version::AoC10a, Version::AoC10c] {
        let (r, res, _) = run(ver, &[sync(5, 3), long.clone()]);
        assert_eq!(res, Err(ParseError::Corrupt));
        assert_eq!(r.duration, 5);
        assert!(r.chat.is_empty());
    }
    for ver in [Version::UP12, Version::UP13, Version::UP14, Version::UP14RC1, Version::UP14RC2, Version::UP15, Version::AoFE21, Version::MCP, Version::Unknown] {
        let (r, res, _) = run(ver, &[sync(5, 3), long.clone()]);
        assert_eq!(res, Ok(()));
        assert!(r.chat.is_empty());
    }
    let mut odd = Vec::new();
    odd.extend_from_slice(&4i32.to_le_bytes());
    odd.extend_from_slice(&7i32.to_le_bytes());
    odd.extend_from_slice(&2i32.to_le_bytes());
    odd.extend_from_slice(b"ok");
    let (r, res, _) = run(Version::AoC10c, &[odd.clone()]);
    assert_eq!(res, Err(ParseError::Corrupt));
    assert!(r.chat.is_empty());
    let (r, res, _) = run(Version::UP15, &[odd]);
    assert_eq!(res, Ok(()));
    assert_eq!(r.chat.len(), 1);
    assert_eq!(r.chat[0].content_raw, Some(b"ok".to_vec()));
}

#[test]
fn unknown_operation_is_tolerated_by_userpatch_only() {
    let mut junk = Vec::new();
    junk.extend_from_slice(&0x1234i32.to_le_bytes());
    let (r, res, _) = run(Version::UP15, &[sync(10, 3), junk.clone(), sync(20, 3), junk.clone(), junk.clone(), sync(30, 3)]);
    assert_eq!(res, Ok(()));
    assert_eq!(r.duration, 60);
    for ver in [Version::AoK, Version::AoKTrial, Version::AoC, Version::AoCTrial, Version::AoC10a, Version::AoC10c] {
        let (r, res, _) = run(ver, &[sync(10, 3), junk.clone(), sync(20, 3)]);
        assert_eq!(res, Err(ParseError::Corrupt));
        assert_eq!(r.duration, 10);
    }
    let mut none = Record::new("x".to_string(), 0, 0);
    let mut b = StreamCursor::new([junk, sync(20, 3)].concat(), 0);
    assert_eq!(parse_body(&mut b, &mut none), Ok(()));
    assert_eq!(none.duration, 20);
}

#[test]
fn read_op_decodes_one_operation() {
    let mut b = StreamCursor::new([sync(12, 0), research(3, 102), movement(7), vec![1, 2, 3]].concat(), 0);
    let (op, err) = read_op(&mut b, Some(Version::AoC10c));
    assert!(matches!(op, BodyOp::Sync { delta: 12 }));
    assert_eq!(err, None);
    assert_eq!(b.tell(), 52);
    let (op, err) = read_op(&mut b, Some(Version::AoC10c));
    assert!(matches!(op, BodyOp::Research { index: 3, tech: 102 }));
    assert_eq!(err, None);
    let (op, _) = read_op(&mut b, Some(Version::AoC10c));
    match op {
        BodyOp::Move { bytes } => assert_eq!(bytes[0], 7),
        _ => panic!("not a move"),
    }
    let (op, err) = read_op(&mut b, Some(Version::AoC10c));
    assert!(matches!(op, BodyOp::End));
    assert_eq!(err, None);
    assert_eq!(b.remain(), 3);
}

#[test]
fn body_leaves_the_rest_of_the_record_alone() {
    let mut r = record(Version::AoC10c);
    r.mapid = Some(9);
    r.poplimit = Some(200);
    r.debug.initpos = 77;
    let mut b = StreamCursor::new([sync(10, 3), chat(b"hi"), movement(1)].concat(), 0);
    assert_eq!(parse_body(&mut b, &mut r), Ok(()));
    assert_eq!(r.mapid, Some(9));
    assert_eq!(r.poplimit, Some(200));
    assert_eq!(r.debug.initpos, 77);
    assert_eq!(r.ver, Some(Version::AoC10c));
    assert_eq!(r.guid, None);
}

#[test]
fn aok_body_starts_with_the_interval() {
    let mut body = Vec::new();
    body.extend_from_slice(&500u32.to_le_bytes());
    body.extend_from_slice(&[0; 32]);
    body.extend(sync(10, 3));
    let mut r = record(Version::AoK);
    let mut b = StreamCursor::new(body.clone(), 0);
    assert_eq!(read_preamble(&mut b, &mut r), Ok(()));
    assert_eq!(b.tell(), 36);
    assert_eq!(r.ismultiplayer, None);
    assert_eq!(parse_body(&mut b, &mut r), Ok(()));
    assert_eq!(r.duration, 10);

    let mut r = record(Version::AoKTrial);
    let mut b = StreamCursor::new(body, 0);
    assert_eq!(read_preamble(&mut b, &mut r), Ok(()));
    assert_eq!(b.tell(), 36);
}

#[test]
fn later_bodies_start_with_the_log_version() {
    let mut body = Vec::new();
    body.extend_from_slice(&4u32.to_le_bytes());
    body.extend_from_slice(&500u32.to_le_bytes());
    body.extend_from_slice(&[0, 1, 0, 0]);
    body.extend_from_slice(&[0; 16]);
    let mut r = record(Version::AoC10c);
    let mut b = StreamCursor::new(body, 0);
    assert_eq!(read_preamble(&mut b, &mut r), Ok(()));
    assert_eq!(b.tell(), 28);
    assert_eq!(r.ismultiplayer, Some(true));
}

#[test]
fn preamble_without_the_interval_is_corrupt() {
    let mut body = Vec::new();
    body.extend_from_slice(&4u32.to_le_bytes());
    body.extend_from_slice(&501u32.to_le_bytes());
    body.extend_from_slice(&[0; 20]);
    let mut r = record(Version::AoC10c);
    let mut b = StreamCursor::new(body.clone(), 0);
    assert_eq!(read_preamble(&mut b, &mut r), Err(ParseError::Corrupt));
    let mut r = record(Version::AoK);
    let mut b = StreamCursor::new(body, 0);
    assert_eq!(read_preamble(&mut b, &mut r), Err(ParseError::Corrupt));
    let mut r = record(Version::AoC10c);
    let mut b = StreamCursor::new(vec![4, 0, 0, 0, 0xf4, 1], 0);
    assert_eq!(read_preamble(&mut b, &mut r), Err(ParseError::Truncated));
}
