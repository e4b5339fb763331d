use mgx::render::{contains, label_of, wording_bytes, WORDINGS};
use mgx::{Chat, Record};

fn record(instructions: &[u8]) -> Record {
    let mut r = Record::new("game.mgx".to_string(), 0, 0);
    r.instructions_raw = Some(instructions.to_vec());
    r
}

fn chat(raw: Option<&[u8]>) -> Chat {
    Chat { time: None, player: None, content_raw: raw.map(|b| b.to_vec()), content: None }
}

#[test]
fn contains_finds_a_window() {
    assert!(contains(&b"hello world".to_vec(), &b"lo w".to_vec()));
    assert!(contains(&b"hello".to_vec(), &b"hello".to_vec()));
    assert!(contains(&b"hello".to_vec(), &b"o".to_vec()));
    assert!(contains(&b"aab".to_vec(), &b"ab".to_vec()));
    assert!(!contains(&b"hello".to_vec(), &b"hellos".to_vec()));
    assert!(!contains(&b"hello".to_vec(), &b"lol".to_vec()));
    assert!(!contains(&b"".to_vec(), &b"a".to_vec()));
    assert!(contains(&b"abc".to_vec(), &b"".to_vec()));
    assert!(contains(&b"".to_vec(), &b"".to_vec()));
}

#[test]
fn wordings_have_their_labels() {
    assert_eq!(WORDINGS, 18);
    assert_eq!(wording_bytes(8), b"Map Type".to_vec());
    assert_eq!(wording_bytes(6), b"Tipo de Mapa".to_vec());
    assert_eq!(wording_bytes(9), b"Tipo de mapa".to_vec());
    assert_eq!(wording_bytes(7), b"Kartentyp".to_vec());
    assert_eq!(wording_bytes(10), b"Type de carte".to_vec());
    assert_eq!(wording_bytes(11), b"Tipo di mappa".to_vec());
    assert_eq!(wording_bytes(12), b"Kaarttype".to_vec());
    assert_eq!(wording_bytes(0), vec![0xb5, 0xd8, 0xcd, 0xbc, 0xc0, 0xe0, 0xb1, 0xf0]);
    assert_eq!(wording_bytes(15), "地图类型".as_bytes().to_vec());
    assert_eq!(wording_bytes(16), "マップチ種類".as_bytes().to_vec());
    assert_eq!(wording_bytes(17), "지도 종류".as_bytes().to_vec());
    assert_eq!(wording_bytes(14), "Тип карты".as_bytes().to_vec());
    let labels: Vec<&str> = (0..WORDINGS).map(label_of).collect();
    assert_eq!(
        labels,
        vec![
            "GBK", "GBK", "Big5", "Big5", "Shift_JIS", "EUC-KR", "windows-1252", "windows-1252",
            "windows-1252", "windows-1252", "windows-1252", "windows-1252", "windows-1252",
            "windows-1251", "windows-1251", "UTF-8", "UTF-8", "UTF-8"
        ]
    );
    for i in 0..WORDINGS {
        assert!(!wording_bytes(i).is_empty());
        assert!(encoding_rs::Encoding::for_label(label_of(i).as_bytes()).is_some());
    }
}

#[test]
fn encoding_is_told_by_the_map_type_line() {
    assert_eq!(record(b"Map Type: Arabia\nAge: Standard").detect_encoding(), Some("windows-1252".to_string()));
    assert_eq!(record(b"Conquest; Kartentyp: Arabien").detect_encoding(), Some("windows-1252".to_string()));
    assert_eq!(record(&[0x20, 0xb5, 0xd8, 0xcd, 0xbc, 0xc0, 0xe0, 0xd0, 0xcd, 0x3a]).detect_encoding(), Some("GBK".to_string()));
    assert_eq!(record(&[0xa6, 0x61, 0xb9, 0xcf, 0xc3, 0xfe, 0xab, 0xac]).detect_encoding(), Some("Big5".to_string()));
    assert_eq!(
        record(&[0x83, 0x7d, 0x83, 0x62, 0x83, 0x76, 0x82, 0xcc, 0x8e, 0xed, 0x97, 0xde]).detect_encoding(),
        Some("Shift_JIS".to_string())
    );
    assert_eq!(record(&[0xc1, 0xf6, 0xb5, 0xb5, 0x20, 0xc1, 0xbe, 0xb7, 0xf9]).detect_encoding(), Some("EUC-KR".to_string()));
    assert_eq!(record(&[0xd2, 0xe8, 0xef, 0x20, 0xea, 0xe0, 0xf0, 0xf2, 0xfb]).detect_encoding(), Some("windows-1251".to_string()));
    assert_eq!(record("说明 地图类型: 阿拉伯".as_bytes()).detect_encoding(), Some("UTF-8".to_string()));
    assert_eq!(record(b"map type: arabia").detect_encoding(), None);
    assert_eq!(record(b"").detect_encoding(), None);
    assert_eq!(Record::new("x".to_string(), 0, 0).detect_encoding(), None);
}

#[test]
fn earlier_wording_wins() {
    let mut both = "地图类型".as_bytes().to_vec();
    both.extend_from_slice(b" Map Type");
    assert_eq!(record(&both).detect_encoding(), Some("windows-1252".to_string()));
    let mut gbk = b"Map Type ".to_vec();
    gbk.extend_from_slice(&[0xb5, 0xd8, 0xcd, 0xbc, 0xc0, 0xe0, 0xb1, 0xf0]);
    assert_eq!(record(&gbk).detect_encoding(), Some("GBK".to_string()));
}

#[test]
fn text_is_decoded_in_the_detected_character_set() {
    let mut r = record(b"Map Type: caf\xe9");
    r.players[1].name_raw = Some(b"Ren\xe9".to_vec());
    r.players[2].name_raw = Some(b"plain".to_vec());
    r.chat.push(chat(Some(b"\xfcber")));
    r.chat.push(chat(None));
    r.convert_encoding();
    assert_eq!(r.instructions, Some("Map Type: café".to_string()));
    assert_eq!(r.players[1].name, Some("René".to_string()));
    assert_eq!(r.players[2].name, Some("plain".to_string()));
    assert_eq!(r.players[0].name, None);
    assert_eq!(r.chat[0].content, Some("über".to_string()));
    assert_eq!(r.chat[1].content, None);
    assert_eq!(r.players[1].name_raw, Some(b"Ren\xe9".to_vec()));
    assert_eq!(r.instructions_raw, Some(b"Map Type: caf\xe9".to_vec()));
}

#[test]
fn text_without_a_known_wording_is_decoded_as_gbk() {
    let mut r = record(&[0xc4, 0xe3, 0xba, 0xc3]);
    r.players[3].name_raw = Some(vec![0xcd, 0xe6, 0xbc, 0xd2]);
    r.chat.push(chat(Some(&[0x67, 0x67, 0xa3, 0xa1])));
    r.convert_encoding();
    assert_eq!(r.instructions, Some("你好".to_string()));
    assert_eq!(r.players[3].name, Some("玩家".to_string()));
    assert_eq!(r.chat[0].content, Some("gg！".to_string()));

    let mut none = Record::new("x".to_string(), 0, 0);
    none.players[1].name_raw = Some(vec![0xc4, 0xe3]);
    none.instructions = Some("kept".to_string());
    none.convert_encoding();
    assert_eq!(none.instructions, Some("kept".to_string()));
    assert_eq!(none.players[1].name, Some("你".to_string()));
}

#[test]
fn utf8_text_is_kept() {
    let mut raw = "地图类型: ".as_bytes().to_vec();
    raw.extend_from_slice("阿拉伯".as_bytes());
    let mut r = record(&raw);
    r.players[1].name_raw = Some("名前".as_bytes().to_vec());
    r.players[2].name_raw = Some(vec![b'a', 0xff, b'b']);
    r.convert_encoding();
    assert_eq!(r.instructions, Some("地图类型: 阿拉伯".to_string()));
    assert_eq!(r.players[1].name, Some("名前".to_string()));
    assert_eq!(r.players[2].name, Some("a\u{fffd}b".to_string()));
}

#[test]
fn decoding_leaves_the_rest_alone() {
    let mut r = record(b"Map Type");
    r.duration = 7;
    r.mapid = Some(3);
    r.players[1].civ_raw = Some(4);
    r.chat.push(Chat { time: Some(9), player: None, content_raw: Some(b"x".to_vec()), content: None });
    r.convert_encoding();
    assert_eq!(r.duration, 7);
    assert_eq!(r.mapid, Some(3));
    assert_eq!(r.players[1].civ_raw, Some(4));
    assert_eq!(r.chat[0].time, Some(9));
    assert_eq!(r.chat.len(), 1);
}
