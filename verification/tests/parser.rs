use flate2::write::DeflateEncoder;
use flate2::Compression;
use mgx::parser_raw::parse;
use mgx::{ParseError, Parser, Record, Version};
use std::io::Write;

const FILL: u8 = 0x11;
const TRAIL: [u8; 6] = [0x16, 0x01, 0x02, 0x03, 0x21, 0x05];

#[derive(Clone)]
struct Entry {
    index: i32,
    kind: i32,
    name: Vec<u8>,
    block: bool,
    allies: Vec<usize>,
    civ: u8,
    color: u8,
    team: u8,
    x: f32,
    y: f32,
}

fn entry(index: i32, kind: i32, name: &[u8], allies: &[usize]) -> Entry {
    Entry {
        index,
        kind,
        name: name.to_vec(),
        block: kind >= 2 && kind <= 5,
        allies: allies.to_vec(),
        civ: 10 + index as u8,
        color: index as u8,
        team: 0,
        x: 10.5 + index as f32,
        y: 20.5 + index as f32,
    }
}

#[derive(Clone)]
struct Game {
    tag: [u8; 7],
    save: f32,
    log: u32,
    aok: bool,
    trial: bool,
    modded: bool,
    with_ai: bool,
    side: i32,
    stride4: bool,
    total: u8,
    recorder: u16,
    speed: u32,
    instant: u8,
    cheats: u8,
    poplimit: u32,
    mapid: u32,
    scenario: f32,
    entries: Vec<Entry>,
    lobby_chats: Vec<Vec<u8>>,
    stated_end: Option<u32>,
    gap: usize,
    chapters: Vec<Vec<u8>>,
    ops: Vec<u8>,
}

fn conquerors() -> Game {
    let mut entries = vec![
        entry(0, 0, b"", &[]),
        entry(1, 2, b"Alice", &[3]),
        entry(2, 2, b"Bob", &[4]),
        entry(3, 4, b"Carol", &[]),
        entry(4, 2, b"Dave", &[]),
    ];
    for i in 5..9 {
        entries.push(entry(i, 0, b"", &[]));
    }
    for (i, e) in entries.iter_mut().enumerate() {
        e.team = if i == 0 { 0 } else { (i % 2) as u8 + 1 };
    }
    Game {
        tag: *b"VER 9.4",
        save: 11.76,
        log: 3,
        aok: false,
        trial: false,
        modded: false,
        with_ai: false,
        side: 3,
        stride4: true,
        total: 5,
        recorder: 1,
        speed: 150,
        instant: 0,
        cheats: 0,
        poplimit: 8,
        mapid: 9,
        scenario: 1.22,
        entries,
        lobby_chats: vec![b"hi all\0".to_vec(), vec![], b"ready".to_vec()],
        stated_end: None,
        gap: 0,
        chapters: vec![],
        ops: vec![],
    }
}

fn kings() -> Game {
    let mut g = conquerors();
    g.tag = *b"VER 9.3";
    g.save = 11.5;
    g.aok = true;
    g.scenario = 1.20;
    g.stride4 = false;
    g
}

fn put_i32(h: &mut Vec<u8>, v: i32) {
    h.extend_from_slice(&v.to_le_bytes());
}

fn put_u32(h: &mut Vec<u8>, v: u32) {
    h.extend_from_slice(&v.to_le_bytes());
}

fn put_f32(h: &mut Vec<u8>, v: f32) {
    h.extend_from_slice(&v.to_le_bytes());
}

fn fill(h: &mut Vec<u8>, n: usize) {
    h.extend(std::iter::repeat(FILL).take(n));
}

fn put_l16(h: &mut Vec<u8>, text: &[u8]) {
    h.extend_from_slice(&(text.len() as u16).to_le_bytes());
    h.extend_from_slice(text);
}

struct Built {
    header: Vec<u8>,
    mappos: usize,
    initpos: usize,
    blocks: Vec<Option<usize>>,
    scenariopos: usize,
    victorypos: usize,
    settingspos: usize,
    triggerpos: usize,
}

fn header(g: &Game) -> Built {
    let mut h = Vec::new();
    h.extend_from_slice(&g.tag);
    h.push(0);
    put_f32(&mut h, g.save);
    if g.with_ai {
        put_u32(&mut h, 1);
        fill(&mut h, 2);
        h.extend_from_slice(&2u16.to_le_bytes());
        fill(&mut h, 4);
        put_u32(&mut h, 3);
        fill(&mut h, 3);
        put_u32(&mut h, 0);
        fill(&mut h, 6);
        for group in 0..8 {
            fill(&mut h, 10);
            let rules: u16 = if group == 0 { 2 } else { 0 };
            h.extend_from_slice(&rules.to_le_bytes());
            fill(&mut h, 4);
            fill(&mut h, rules as usize * 400);
        }
        fill(&mut h, 104 + 320 + 1024 + 4096);
    } else {
        put_u32(&mut h, 0);
    }
    fill(&mut h, 12);
    put_u32(&mut h, g.speed);
    fill(&mut h, 29);
    h.extend_from_slice(&g.recorder.to_le_bytes());
    h.push(g.total);
    if !g.aok {
        h.push(g.instant);
        h.push(g.cheats);
    }
    fill(&mut h, 60);
    put_i32(&mut h, g.side);
    put_i32(&mut h, g.side);
    let tiles = (g.side * g.side) as usize;
    put_i32(&mut h, 1);
    fill(&mut h, 1275 + tiles);
    put_i32(&mut h, 2);
    fill(&mut h, 2 * 4 + 4);
    h.push(1);
    fill(&mut h, 1);
    let mappos = h.len();
    let stride = if g.stride4 { 4 } else { 2 };
    h.push(if g.stride4 { 0xff } else { 0x01 });
    fill(&mut h, tiles * stride - 1);
    put_i32(&mut h, 1);
    fill(&mut h, 4 + 4);
    put_i32(&mut h, 2);
    fill(&mut h, 16);
    put_i32(&mut h, 1);
    put_i32(&mut h, 2);
    fill(&mut h, 8);
    put_u32(&mut h, 0x0102_0304);
    put_u32(&mut h, 1);
    fill(&mut h, 27 + 4);
    let mut initpos = h.len();
    if g.trial {
        fill(&mut h, 4);
        initpos += 4;
    }
    fill(&mut h, 2 + g.total as usize + 36 + 4 + 1);
    let first_name = h.len();
    put_l16(&mut h, b"Gaia\0");
    h.extend_from_slice(&TRAIL);
    let search_start = first_name + 35100 + tiles;
    let pad = search_start + 7 - h.len();
    fill(&mut h, pad);

    let mut blocks: Vec<Option<usize>> = vec![None; 9];
    for e in g.entries.iter() {
        if !e.block {
            continue;
        }
        let total = g.total as usize;
        for j in 0..total {
            h.push(if e.allies.contains(&j) { 0 } else { 3 });
        }
        for j in 0..total {
            put_i32(&mut h, if e.allies.contains(&j) { 2 } else { 3 });
        }
        fill(&mut h, 41 - 4 * total);
        if e.index >= 0 && e.index < 9 {
            blocks[e.index as usize] = Some(h.len());
        }
        let mut named = e.name.clone();
        named.push(0);
        put_l16(&mut h, &named);
        h.extend_from_slice(&TRAIL);
        put_f32(&mut h, 200.0);
        put_f32(&mut h, 201.0);
        put_f32(&mut h, 202.0);
        put_f32(&mut h, 100.0);
        fill(&mut h, 8);
        put_f32(&mut h, 1.0);
        fill(&mut h, 16);
        put_f32(&mut h, 4.0);
        fill(&mut h, 100);
        put_f32(&mut h, 3.0);
        fill(&mut h, 8);
        put_f32(&mut h, 1.0);
        fill(&mut h, 756 - 41 * 4);
        if !g.aok {
            fill(&mut h, 36);
        }
        if g.modded {
            put_f32(&mut h, 1.5);
            fill(&mut h, 4 * 6 + 4 * 7 + 4 * 28);
        }
        fill(&mut h, 1);
        put_f32(&mut h, e.x);
        put_f32(&mut h, e.y);
        if !g.aok {
            put_i32(&mut h, 2);
            fill(&mut h, 16);
        }
        fill(&mut h, 5);
        h.push(e.civ);
        fill(&mut h, 3);
        h.push(e.color);
        fill(&mut h, 300);
    }
    fill(&mut h, g.total as usize * 1817 + 64);

    let scenariopos = h.len();
    fill(&mut h, 4);
    put_f32(&mut h, g.scenario);
    fill(&mut h, 16 * 256 + 16 * 4 + 16 * 16 + 5 + 4);
    put_l16(&mut h, b"battle.scx\0");
    fill(&mut h, 20);
    if !g.aok {
        fill(&mut h, 4);
    }
    put_l16(&mut h, b"Map Type: Arabia\0");
    fill(&mut h, 50);

    let victorypos = h.len();
    fill(&mut h, 4);
    put_u32(&mut h, 1);
    fill(&mut h, 4);
    put_i32(&mut h, 5);
    fill(&mut h, 4);
    put_i32(&mut h, 80);
    fill(&mut h, 4);
    put_u32(&mut h, 0);
    put_i32(&mut h, 4);
    put_i32(&mut h, 900);
    put_i32(&mut h, 7);
    fill(&mut h, 12544);
    fill(&mut h, 5456);

    let settingspos = h.len();
    h.extend_from_slice(&[0x9d, 0xff, 0xff, 0xff]);
    fill(&mut h, 8);
    if !g.aok {
        put_u32(&mut h, g.mapid);
    }
    put_i32(&mut h, 2);
    put_u32(&mut h, 1);
    for e in g.entries.iter() {
        put_i32(&mut h, e.index);
        put_i32(&mut h, e.kind);
        put_i32(&mut h, e.name.len() as i32);
        h.extend_from_slice(&e.name);
    }
    fill(&mut h, 30);

    h.extend_from_slice(&[0x9a, 0x99, 0x99, 0x99, 0x99, 0x99, 0xf9, 0x3f]);
    let triggerpos = h.len();
    fill(&mut h, 1);
    put_i32(&mut h, 1);
    fill(&mut h, 18);
    put_i32(&mut h, 2);
    fill(&mut h, 2);
    put_i32(&mut h, 0);
    put_i32(&mut h, 1);
    fill(&mut h, 24);
    put_i32(&mut h, -1);
    fill(&mut h, 72);
    put_i32(&mut h, 3);
    fill(&mut h, 3);
    put_i32(&mut h, 0);
    fill(&mut h, 4);
    put_i32(&mut h, 1);
    fill(&mut h, 76);
    fill(&mut h, 4);

    for slot in 1..9 {
        h.push(g.entries[slot].team);
    }
    fill(&mut h, 1);
    put_i32(&mut h, 1);
    fill(&mut h, 4);
    put_u32(&mut h, 2);
    put_u32(&mut h, g.poplimit);
    if !g.aok {
        h.push(0);
        h.push(1);
        put_i32(&mut h, g.lobby_chats.len() as i32);
        for c in g.lobby_chats.iter() {
            put_i32(&mut h, c.len() as i32);
            h.extend_from_slice(c);
        }
    }
    fill(&mut h, 16);
    Built { header: h, mappos, initpos, blocks, scenariopos, victorypos, settingspos, triggerpos }
}

fn deflate(data: &[u8]) -> Vec<u8> {
    let mut enc = DeflateEncoder::new(Vec::new(), Compression::default());
    enc.write_all(data).unwrap();
    enc.finish().unwrap()
}

fn preamble(g: &Game) -> Vec<u8> {
    let mut b = Vec::new();
    if g.aok {
        put_u32(&mut b, 500);
        fill(&mut b, 32);
    } else {
        put_u32(&mut b, g.log);
        put_u32(&mut b, 500);
        put_u32(&mut b, 1);
        fill(&mut b, 16);
    }
    b
}

fn file(g: &Game) -> Vec<u8> {
    let packed = deflate(&header(g).header);
    let mut f = Vec::new();
    let begin = if g.aok { 4 } else { 8 };
    let body_start = begin + packed.len() + g.gap;
    put_u32(&mut f, g.stated_end.unwrap_or(body_start as u32));
    let mut body = preamble(g);
    body.extend_from_slice(&g.ops);
    if !g.aok {
        let first_end = if g.chapters.is_empty() { 0 } else { body_start + body.len() };
        put_u32(&mut f, first_end as u32);
    }
    f.extend_from_slice(&packed);
    fill(&mut f, g.gap);
    f.extend_from_slice(&body);
    for (k, ch) in g.chapters.iter().enumerate() {
        let here = f.len();
        put_u32(&mut f, (here + 8) as u32);
        let next = if k + 1 == g.chapters.len() { 0 } else { here + 8 + ch.len() };
        put_u32(&mut f, next as u32);
        f.extend_from_slice(ch);
    }
    if g.aok {
        let word = u32::from_le_bytes([f[4], f[5], f[6], f[7]]);
        assert!(word as usize >= f.len());
    }
    f
}

fn sync(delta: i32) -> Vec<u8> {
    let mut v = Vec::new();
    put_i32(&mut v, 2);
    put_i32(&mut v, delta);
    put_i32(&mut v, 3);
    fill(&mut v, 12);
    v
}

fn syncs(n: usize, delta: i32) -> Vec<u8> {
    let mut v = Vec::new();
    for _ in 0..n {
        v.extend(sync(delta));
    }
    v
}

fn resign(slot: u8) -> Vec<u8> {
    let mut v = Vec::new();
    put_i32(&mut v, 1);
    put_u32(&mut v, 7);
    v.extend_from_slice(&[0x0b, slot, slot, 0, 0, 0, 0]);
    fill(&mut v, 4);
    v
}

fn chat(msg: &[u8]) -> Vec<u8> {
    let mut v = Vec::new();
    put_i32(&mut v, 4);
    put_i32(&mut v, -1);
    put_i32(&mut v, msg.len() as i32);
    v.extend_from_slice(msg);
    v
}

fn movement(first: u8) -> Vec<u8> {
    let mut v = Vec::new();
    put_i32(&mut v, 1);
    put_u32(&mut v, 20);
    v.push(0x03);
    for k in 0..19u8 {
        v.push(first + k);
    }
    fill(&mut v, 4);
    v
}

fn decode(g: &Game) -> Result<Record, (Record, ParseError)> {
    parse(file(g), "game.mgx".to_string(), 1700000000)
}

fn decoded(g: &Game) -> Record {
    match decode(g) {
        Ok(r) => r,
        Err((r, e)) => panic!("{:?} at {:?}", e, r.debug),
    }
}

fn failed(g: &Game) -> (Record, ParseError) {
    match decode(g) {
        Ok(_) => panic!("decoded"),
        Err(f) => f,
    }
}

fn played() -> Game {
    let mut g = conquerors();
    let mut ops = Vec::new();
    ops.extend(syncs(3, 1000));
    ops.extend(movement(1));
    ops.extend(chat(b"gl\0"));
    ops.extend(syncs(2, 500));
    ops.extend(movement(40));
    ops.extend(chat(b"@#2--Bob resigned--\0"));
    ops.extend(resign(2));
    ops.extend(sync(250));
    ops.extend(resign(4));
    g.ops = ops;
    g
}

#[test]
fn header_fields_are_read() {
    let g = played();
    let b = header(&g);
    let r = decoded(&g);
    assert_eq!(r.filename, "game.mgx");
    assert_eq!(r.lastmod, 1700000000);
    assert_eq!(r.filesize, file(&g).len());
    assert_eq!(r.parser, "mgx-rs 0.1.0");
    assert_eq!(r.ver, Some(Version::AoC10a));
    assert_eq!(r.verraw, Some(b"VER 9.4".to_vec()));
    assert_eq!(r.versave.map(f32::from_bits), Some(11.76));
    assert_eq!(r.versave2, None);
    assert_eq!(r.verlog, Some(3));
    assert_eq!(r.verscenario.map(f32::from_bits), Some(1.22));
    assert_eq!(r.include_ai, Some(false));
    assert_eq!(r.speed_raw, Some(150));
    assert_eq!(r.recorder, Some(1));
    assert_eq!(r.totalplayers, Some(5));
    assert_eq!(r.instantbuild, Some(false));
    assert_eq!(r.enablecheats, Some(false));
    assert_eq!(r.mapx, Some(3));
    assert_eq!(r.mapy, Some(3));
    assert_eq!(r.fogofwar, Some(true));
    assert_eq!(r.restoretime, Some(0x0102_0304));
    assert_eq!(r.revealmap_raw, Some(1));
    assert_eq!(r.mapsize_raw, Some(2));
    assert_eq!(r.poplimit, Some(200));
    assert_eq!(r.gametype_raw, Some(0));
    assert_eq!(r.lockdiplomacy, Some(true));
    assert_eq!(r.isconquest, Some(true));
    assert_eq!(r.relics2win, Some(5));
    assert_eq!(r.explored2win, Some(80));
    assert_eq!(r.anyorall, Some(false));
    assert_eq!(r.victorytype_raw, Some(4));
    assert_eq!(r.score2win, Some(900));
    assert_eq!(r.time2win_raw, Some(7));
    assert_eq!(r.scenariofilename_raw, Some(b"battle.scx".to_vec()));
    assert_eq!(r.instructions_raw, Some(b"Map Type: Arabia".to_vec()));
    assert_eq!(r.mapid, Some(9));
    assert_eq!(r.difficulty_raw, Some(2));
    assert_eq!(r.lockteams, Some(true));
    assert_eq!(r.ismultiplayer, Some(true));
    assert_eq!(r.debug.aipos, 12);
    assert_eq!(r.debug.mappos, Some(b.mappos));
    assert_eq!(r.debug.initpos, b.initpos);
    assert_eq!(r.debug.triggerpos, b.triggerpos);
    assert_eq!(r.debug.settingspos, b.settingspos);
    assert_eq!(r.debug.disabledtechspos, b.settingspos - 5456);
    assert_eq!(r.debug.victorypos, b.victorypos);
    assert_eq!(r.debug.scenariopos, b.scenariopos);
    assert_eq!(r.debug.triggersign, 1.6f64.to_bits());
}

#[test]
fn anchors_are_in_order() {
    let r = decoded(&played());
    assert!(r.debug.scenariopos < r.debug.victorypos);
    assert!(r.debug.victorypos < r.debug.disabledtechspos);
    assert!(r.debug.disabledtechspos < r.debug.settingspos);
    assert!(r.debug.settingspos < r.debug.triggerpos);
}

#[test]
fn players_are_read() {
    let g = played();
    let b = header(&g);
    let r = decoded(&g);
    assert_eq!(r.debug.playerinitpos_by_idx.to_vec(), b.blocks);
    for (slot, p) in r.players.iter().enumerate() {
        let e = &g.entries[slot];
        assert_eq!(p.slot, slot);
        assert_eq!(p.index, Some(e.index));
        assert_eq!(p.playertype, Some(e.kind));
        assert_eq!(p.name_raw, if e.name.is_empty() { None } else { Some(e.name.clone()) });
        assert_eq!(p.teamid, if slot == 0 { None } else { Some(e.team) });
        assert_eq!(p.isvalid(), e.block);
        if e.block {
            assert_eq!(p.ismainop, Some(true));
            assert_eq!(p.initfood.map(f32::from_bits), Some(200.0));
            assert_eq!(p.initwood.map(f32::from_bits), Some(201.0));
            assert_eq!(p.initstone.map(f32::from_bits), Some(202.0));
            assert_eq!(p.initgold.map(f32::from_bits), Some(100.0));
            assert_eq!(p.initage_raw.map(f32::from_bits), Some(1.0));
            assert_eq!(p.initpop.map(f32::from_bits), Some(4.0));
            assert_eq!(p.initcivilian.map(f32::from_bits), Some(3.0));
            assert_eq!(p.initmilitary.map(f32::from_bits), Some(1.0));
            assert_eq!(p.initx.map(f32::from_bits), Some(e.x));
            assert_eq!(p.inity.map(f32::from_bits), Some(e.y));
            assert_eq!(p.civ_raw, Some(e.civ));
            assert_eq!(p.colorid, Some(e.color));
            assert_eq!(p.modversion, None);
            assert!(r.debug.playerinitpos_by_idx[e.index as usize].is_some());
        } else {
            assert_eq!(p.ismainop, None);
            assert_eq!(p.initx, None);
            assert_eq!(p.civ_raw, None);
            assert_eq!(p.colorid, None);
        }
    }
}

#[test]
fn teams_and_matchup_follow_the_diplomacy() {
    let r = decoded(&played());
    assert_eq!(r.teams, vec![vec![1, 3], vec![2, 4]]);
    assert_eq!(r.matchup, Some(vec![2, 2]));

    let mut g = conquerors();
    g.entries[1].allies = vec![2, 3];
    g.entries[2].allies = vec![];
    let r = decoded(&g);
    assert_eq!(r.teams, vec![vec![1, 2, 3], vec![4]]);
    assert_eq!(r.matchup, Some(vec![1, 3]));

    let mut g = conquerors();
    for e in g.entries.iter_mut() {
        e.allies = vec![];
    }
    let r = decoded(&g);
    assert_eq!(r.teams, vec![vec![1], vec![2], vec![3], vec![4]]);
    assert_eq!(r.matchup, Some(vec![1, 1, 1, 1]));
    assert!(!r.haswinner);
}

#[test]
fn lobby_chats_have_no_time() {
    let r = decoded(&conquerors());
    assert_eq!(r.chat.len(), 2);
    assert_eq!(r.chat[0].time, None);
    assert_eq!(r.chat[0].content_raw, Some(b"hi all".to_vec()));
    assert_eq!(r.chat[1].time, None);
    assert_eq!(r.chat[1].content_raw, Some(b"ready".to_vec()));
}

#[test]
fn body_is_applied_after_the_header() {
    let r = decoded(&played());
    assert_eq!(r.duration, 4250);
    assert_eq!(r.chat.len(), 3);
    assert_eq!(r.chat[2].time, Some(3000));
    assert_eq!(r.chat[2].content_raw, Some(b"gl".to_vec()));
    assert_eq!(r.debug.earlymovecount, 2);
    assert_eq!(r.debug.earlymovetime, vec![3000, 4000]);
    assert_eq!(r.debug.earlymovecmd[1][0], 40);
    assert_eq!(r.players[2].resigned, Some(4000));
    assert_eq!(r.players[4].resigned, Some(4250));
    assert_eq!(r.players[1].resigned, None);
}

#[test]
fn winner_is_the_team_that_did_not_resign() {
    let r = decoded(&played());
    assert!(r.haswinner);
    assert_eq!(r.players[1].winner, Some(true));
    assert_eq!(r.players[3].winner, Some(true));
    assert_eq!(r.players[2].winner, Some(false));
    assert_eq!(r.players[4].winner, Some(false));
    assert_eq!(r.players[0].winner, None);
    assert_eq!(r.players[5].winner, None);
}

#[test]
fn md5_is_that_of_the_file() {
    let g = played();
    let r = decoded(&g);
    let want = chksum_hash_md5::hash(file(&g)).to_hex_lowercase();
    assert_eq!(r.md5, Some(want));
    assert_eq!(r.md5.as_ref().map(|s| s.len()), Some(32));
}

#[test]
fn parsing_twice_gives_the_same_record() {
    let g = played();
    let a = decoded(&g);
    let b = decoded(&g);
    assert_eq!(format!("{:?}", a), format!("{:?}", b));
}

#[test]
fn guid_is_the_same_for_another_view_of_the_match() {
    let g = played();
    let a = decoded(&g);
    let mut other = g.clone();
    other.recorder = 2;
    other.lobby_chats = vec![b"someone else\0".to_vec()];
    other.ops.extend(chat(b"@#3--Dave resigned--\0"));
    other.ops.extend(sync(90));
    let b = decoded(&other);
    assert_ne!(a.md5, b.md5);
    assert_ne!(a.duration, b.duration);
    assert_eq!(a.guid, b.guid);
    assert_eq!(a.guid.as_ref().map(|s| s.len()), Some(32));

    let mut third = g.clone();
    third.speed = 200;
    assert_ne!(decoded(&third).guid, a.guid);
}

#[test]
fn header_length_of_zero_is_corrected() {
    let mut g = played();
    let want = decoded(&g);
    g.stated_end = Some(0);
    let r = decoded(&g);
    assert_eq!(r.ver, Some(Version::AoC10a));
    assert_eq!(r.duration, want.duration);
    assert_eq!(r.guid, want.guid);
    g.stated_end = Some(9);
    assert_eq!(decoded(&g).duration, want.duration);
}

#[test]
fn headerlen_missing_test() {
    let mut g = conquerors();
    g.stated_end = Some(0);
    let r = decoded(&g);
    assert_eq!(r.ver, Some(Version::AoC10a));
}

#[test]
fn extra_bytes_after_header_test() {
    let mut g = conquerors();
    g.gap = 21;
    let r = decoded(&g);
    assert_eq!(r.ver, Some(Version::AoC10a));
}

#[test]
fn stated_header_end_behind_the_stream_is_kept() {
    let mut g = played();
    g.gap = 13;
    let r = decoded(&g);
    assert_eq!(r.duration, 4250);
    assert_eq!(r.verlog, Some(3));
}

#[test]
fn next_chapter_test() {
    let mut g = conquerors();
    g.log = 4;
    g.ops = syncs(3000, 1000);
    let mut last = syncs(179, 1000);
    last.extend(sync(880));
    g.chapters = vec![last];
    let r = decoded(&g);
    assert_eq!(r.ver, Some(Version::AoC10c));
    assert_eq!(r.duration, 3179880);
}

#[test]
fn chapters_are_walked_in_turn() {
    let mut g = conquerors();
    g.ops = syncs(2, 100);
    g.chapters = vec![syncs(1, 7), [syncs(1, 30), chat(b"late")].concat(), syncs(3, 1)];
    let r = decoded(&g);
    assert_eq!(r.duration, 240);
    assert_eq!(r.chat.len(), 3);
    assert_eq!(r.chat[2].time, Some(237));
}

#[test]
fn chapter_that_points_backwards_is_corrupt() {
    let mut g = conquerors();
    g.ops = syncs(2, 100);
    g.chapters = vec![syncs(1, 7)];
    let mut f = file(&g);
    let pointer = u32::from_le_bytes([f[4], f[5], f[6], f[7]]) as usize;
    f[pointer + 4..pointer + 8].copy_from_slice(&8u32.to_le_bytes());
    match parse(f, "x".to_string(), 0) {
        Err((r, e)) => {
            assert_eq!(e, ParseError::Corrupt);
            assert_eq!(r.duration, 200);
            assert_eq!(r.guid, None);
        }
        Ok(_) => panic!("decoded"),
    }
}

#[test]
fn kings_layout_is_read() {
    let mut g = kings();
    g.ops = syncs(4, 25);
    let r = decoded(&g);
    assert_eq!(r.ver, Some(Version::AoK));
    assert_eq!(r.verlog, None);
    assert_eq!(r.instantbuild, None);
    assert_eq!(r.enablecheats, None);
    assert_eq!(r.mapid, None);
    assert_eq!(r.gametype_raw, None);
    assert_eq!(r.lockdiplomacy, None);
    assert_eq!(r.ismultiplayer, None);
    assert!(r.chat.is_empty());
    assert_eq!(r.verscenario.map(f32::from_bits), Some(1.20));
    assert_eq!(r.duration, 100);
    assert_eq!(r.matchup, Some(vec![2, 2]));
    assert_eq!(r.players[1].civ_raw, Some(11));
    assert_eq!(r.instructions_raw, Some(b"Map Type: Arabia".to_vec()));
}

#[test]
fn raw_parser_aok_test() {
    let retval = decoded(&kings());
    assert_eq!(retval.ver, Some(Version::AoK));
}

#[test]
fn kings_trial_moves_the_players_blocks() {
    let mut g = kings();
    g.tag = *b"TRL 9.3";
    g.trial = true;
    for e in g.entries.iter_mut() {
        e.allies = vec![];
    }
    g.entries[4].kind = 0;
    g.entries[4].block = false;
    g.total = 4;
    g.ops = syncs(2, 10);
    let b = header(&g);
    let r = decoded(&g);
    assert_eq!(r.ver, Some(Version::AoKTrial));
    assert_eq!(r.debug.initpos, b.initpos);
    assert_eq!(r.matchup, Some(vec![1, 1, 1]));
    assert_eq!(r.duration, 20);
}

#[test]
fn conquerors_trial_is_told_by_the_body() {
    let mut g = conquerors();
    g.tag = *b"TRL 9.3";
    let r = decoded(&g);
    assert_eq!(r.ver, Some(Version::AoCTrial));
}

#[test]
fn aoc10_test() {
    let retval = decoded(&conquerors());
    assert_eq!(retval.ver, Some(Version::AoC10a));
}

#[test]
fn raw_parser_aoc10c_test() {
    let mut g = conquerors();
    g.log = 4;
    let retval = decoded(&g);
    assert_eq!(retval.ver, Some(Version::AoC10c));
}

#[test]
fn raw_parser_up15_test() {
    let mut g = conquerors();
    g.tag = *b"VER 9.F";
    g.modded = true;
    let retval = decoded(&g);
    assert_eq!(retval.ver, Some(Version::UP15));
    assert_eq!(retval.players[1].modversion.map(f32::from_bits), Some(1.5));
    assert_eq!(retval.players[1].colorid, Some(1));
    assert_eq!(retval.players[0].modversion, None);
}

#[test]
fn raw_parser_up14_scenario_test() {
    let mut g = conquerors();
    g.tag = *b"VER 9.C";
    let retval = decoded(&g);
    assert!(f32::from_bits(retval.verscenario.unwrap()) - 1.22 < 0.0001);
    assert_eq!(retval.ver, Some(Version::UP14));
}

#[test]
fn userpatch_body_may_hold_unknown_operations() {
    let mut g = conquerors();
    g.tag = *b"VER 9.F";
    g.modded = true;
    let mut ops = syncs(2, 50);
    put_i32(&mut ops, 0x7777);
    put_i32(&mut ops, 0);
    ops.extend(sync(5));
    g.ops = ops;
    let r = decoded(&g);
    assert_eq!(r.duration, 105);

    g.tag = *b"VER 9.4";
    g.modded = false;
    let (r, e) = failed(&g);
    assert_eq!(e, ParseError::Corrupt);
    assert_eq!(r.duration, 100);
    assert_eq!(r.guid, None);
    assert_eq!(r.matchup, Some(vec![2, 2]));
}

#[test]
fn ai_test() {
    let mut g = conquerors();
    g.with_ai = true;
    let retval = decoded(&g);
    assert_eq!(retval.include_ai, Some(true));
    assert_eq!(retval.mapx, Some(3));
    assert_eq!(retval.matchup, Some(vec![2, 2]));
}

#[test]
fn legacy_tiles_take_two_bytes() {
    let mut g = conquerors();
    g.stride4 = false;
    g.side = 5;
    let b = header(&g);
    let r = decoded(&g);
    assert_eq!(r.debug.mappos, Some(b.mappos));
    assert_eq!(r.debug.initpos, b.initpos);
    assert_eq!(r.debug.initpos - b.mappos, 25 * 2 + 87);
    g.stride4 = true;
    let b = header(&g);
    let r = decoded(&g);
    assert_eq!(r.debug.initpos, b.initpos);
    assert_eq!(r.debug.initpos - b.mappos, 25 * 4 + 87);
    assert_eq!(r.matchup, Some(vec![2, 2]));
}

#[test]
fn population_limit_is_scaled_up_to_forty() {
    let mut g = conquerors();
    g.poplimit = 40;
    assert_eq!(decoded(&g).poplimit, Some(1000));
    g.poplimit = 41;
    assert_eq!(decoded(&g).poplimit, Some(41));
    g.poplimit = 0;
    assert_eq!(decoded(&g).poplimit, Some(0));
    g.poplimit = 200;
    assert_eq!(decoded(&g).poplimit, Some(200));
}

#[test]
fn hd_test() {
    let mut g = conquerors();
    g.save = 12.34;
    g.log = 4;
    match decode(&g) {
        Err((_, e)) => {
            assert!(e.message().contains("DE/HD or higher versions are not supported"));
        }
        _ => (),
    }
    let (r, e) = failed(&g);
    assert_eq!(e, ParseError::UnsupportedVersion);
    assert_eq!(r.ver, Some(Version::HD));
    assert_eq!(r.include_ai, None);
}

#[test]
fn parser_de63_test() {
    let mut g = conquerors();
    g.save = -1.0;
    g.log = 5;
    match decode(&g) {
        Err((_, e)) => {
            assert!(e.message().contains("DE/HD or higher versions are not supported"));
        }
        _ => (),
    }
    let (_, e) = failed(&g);
    assert_eq!(e, ParseError::UnsupportedVersion);
}

#[test]
fn raw_parser_de63_test() {
    let mut g = conquerors();
    g.save = -1.0;
    g.log = 5;
    let (retval, _) = failed(&g);
    assert_eq!(retval.ver, Some(Version::DE));
    assert_eq!(retval.versave.map(f32::from_bits), Some(-1.0));
    assert_eq!(retval.versave2, Some(0));
}

#[test]
fn map_that_is_not_a_small_square_is_invalid() {
    let mut g = conquerors();
    g.side = -3;
    let (r, e) = failed(&g);
    assert_eq!(e, ParseError::MapInvalid);
    assert_eq!(r.mapx, Some(-3));
    assert_eq!(r.speed_raw, Some(150));
    assert_eq!(r.fogofwar, None);

    let g = conquerors();
    let mut h = header(&g).header;
    h[126..130].copy_from_slice(&4i32.to_le_bytes());
    let (r, e) = failed_header(&g, &h);
    assert_eq!(e, ParseError::MapInvalid);
    assert_eq!((r.mapx, r.mapy), (Some(4), Some(3)));

    h[126..130].copy_from_slice(&10001i32.to_le_bytes());
    h[130..134].copy_from_slice(&10001i32.to_le_bytes());
    let (_, e) = failed_header(&g, &h);
    assert_eq!(e, ParseError::MapInvalid);
}

fn failed_header(g: &Game, h: &[u8]) -> (Record, ParseError) {
    let packed = deflate(h);
    let mut f = Vec::new();
    put_u32(&mut f, (8 + packed.len()) as u32);
    put_u32(&mut f, 0);
    f.extend_from_slice(&packed);
    f.extend(preamble(g));
    match parse(f, "x".to_string(), 0) {
        Ok(_) => panic!("decoded"),
        Err(found) => found,
    }
}

#[test]
fn missing_anchor_is_reported() {
    let g = conquerors();
    let b = header(&g);
    let mut h = b.header.clone();
    h[b.triggerpos - 1] = 0x40;
    let (r, e) = failed_header(&g, &h);
    assert_eq!(e, ParseError::AnchorMissing);
    assert_eq!(r.debug.initpos, b.initpos);
    assert_eq!(r.debug.triggerpos, 0);

    let mut h = b.header.clone();
    h[b.settingspos] = 0x9c;
    let (r, e) = failed_header(&g, &h);
    assert_eq!(e, ParseError::AnchorMissing);
    assert_eq!(r.debug.triggerpos, b.triggerpos);
    assert_eq!(r.poplimit, Some(200));
    assert_eq!(r.debug.settingspos, 0);

    let mut h = b.header.clone();
    h[b.scenariopos + 4] = 0xf5;
    let (r, e) = failed_header(&g, &h);
    assert_eq!(e, ParseError::AnchorMissing);
    assert_eq!(r.debug.victorypos, b.victorypos);
    assert_eq!(r.isconquest, Some(true));
    assert_eq!(r.verscenario, None);
}

#[test]
fn anchor_without_room_before_it_is_corrupt() {
    let g = conquerors();
    let b = header(&g);
    let mut h = b.header.clone();
    h[b.settingspos] = 0x9c;
    h[200..204].copy_from_slice(&[0x9d, 0xff, 0xff, 0xff]);
    let (r, e) = failed_header(&g, &h);
    assert_eq!(e, ParseError::Corrupt);
    assert_eq!(r.debug.settingspos, 200);
    assert_eq!(r.debug.disabledtechspos, 0);
}

#[test]
fn header_that_ends_early_is_truncated() {
    let g = conquerors();
    let b = header(&g);
    let (r, e) = failed_header(&g, &b.header[..100]);
    assert_eq!(e, ParseError::Truncated);
    assert_eq!(r.ver, Some(Version::AoC10a));
    assert_eq!(r.speed_raw, Some(150));
    assert_eq!(r.mapx, None);
    let (r, e) = failed_header(&g, &b.header[..5]);
    assert_eq!(e, ParseError::Truncated);
    assert_eq!(r.verraw, None);
    let (r, e) = failed_header(&g, &b.header[..9]);
    assert_eq!(e, ParseError::Truncated);
    assert_eq!(r.verraw, Some(b"VER 9.4".to_vec()));
    assert_eq!(r.versave, None);
}

#[test]
fn stream_that_is_not_deflate_fails_to_decompress() {
    let mut f = Vec::new();
    put_u32(&mut f, 100);
    put_u32(&mut f, 0);
    f.extend_from_slice(&[0xff; 64]);
    match Parser::new(f.clone()) {
        Err(e) => assert_eq!(e, ParseError::DecompressFailed),
        Ok(_) => panic!("inflated"),
    }
    match parse(f, "bad.mgx".to_string(), 5) {
        Err((r, e)) => {
            assert_eq!(e, ParseError::DecompressFailed);
            assert_eq!(r.filename, "bad.mgx");
            assert_eq!(r.filesize, 72);
            assert_eq!(r.md5, None);
        }
        Ok(_) => panic!("decoded"),
    }
}

#[test]
fn file_shorter_than_its_two_numbers_is_truncated() {
    for n in 0..8 {
        match Parser::new(vec![0; n]) {
            Err(e) => assert_eq!(e, ParseError::Truncated),
            Ok(_) => panic!("split"),
        }
    }
}

#[test]
fn parser_keeps_header_and_body() {
    let g = played();
    let f = file(&g);
    let p = match Parser::new(f.clone()) {
        Ok(p) => p,
        Err(e) => panic!("{:?}", e),
    };
    assert_eq!(p.header_bytes(), &header(&g).header[..]);
    let mut body = preamble(&g);
    body.extend_from_slice(&g.ops);
    assert_eq!(p.body_bytes(), &body[..]);
    assert_eq!(p.body.source(), &f);
    assert_eq!(p.header.tell(), 0);
    assert_eq!(p.md5, chksum_hash_md5::hash(&f).to_hex_lowercase());
}

#[test]
fn parse_to_fills_a_given_record() {
    let g = played();
    let mut p = match Parser::new(file(&g)) {
        Ok(p) => p,
        Err(e) => panic!("{:?}", e),
    };
    let mut r = Record::new("mine".to_string(), 3, 4);
    assert_eq!(p.parse_to(&mut r), Ok(()));
    assert_eq!(r.filename, "mine");
    assert_eq!(r.filesize, 3);
    assert_eq!(r.duration, 4250);
    assert_eq!(r.md5, Some(p.md5.clone()));
    assert_eq!(r.guid, decoded(&g).guid);
}

#[test]
fn player_without_a_block_gets_no_init_data() {
    let mut g = conquerors();
    g.entries[3].block = false;
    let r = decoded(&g);
    assert_eq!(r.debug.playerinitpos_by_idx[3], None);
    assert!(r.players[3].isvalid());
    assert_eq!(r.players[3].ismainop, None);
    assert_eq!(r.players[3].civ_raw, None);
    assert_eq!(r.teams, vec![vec![1, 3], vec![2, 4]]);
    assert_eq!(r.players[1].civ_raw, Some(11));
}

#[test]
fn more_than_nine_players_are_corrupt() {
    let mut g = conquerors();
    g.total = 10;
    for e in g.entries.iter_mut() {
        e.block = false;
    }
    let (r, e) = failed(&g);
    assert_eq!(e, ParseError::Corrupt);
    assert_eq!(r.totalplayers, Some(10));
    assert!(r.teams.is_empty());
    assert_eq!(r.matchup, None);
}
