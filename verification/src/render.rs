//! Text for people: which character set a game was written in, and its
//! instructions, names and chat in that character set.
//!
//! The instructions of a game start with a line that names the map type in
//! the language of the game. Where one of the known wordings stands in them,
//! the character set of that language is the one of all text in the file.
use crate::bytes::occurs_at;
use crate::record::{ChatView, PlayerView, Record, RecordView};
use encoding_rs::Encoding;
use vstd::prelude::*;

verus! {

/// How many wordings are known.
pub const WORDINGS: usize = 18;

/// The longest text that is decoded.
pub const DECODE_MAX: usize = 0x1000_0000;

/// The `i`-th known wording of the map type line.
pub open spec fn wording(i: int) -> Seq<u8> {
    if i == 0 {
        // map type in simplified Chinese
        seq![
            0xb5u8, 0xd8u8, 0xcdu8, 0xbcu8, 0xc0u8, 0xe0u8, 0xb1u8, 0xf0u8,
        ]
    } else if i == 1 {
        // map type in simplified Chinese, another wording
        seq![
            0xb5u8, 0xd8u8, 0xcdu8, 0xbcu8, 0xc0u8, 0xe0u8, 0xd0u8, 0xcdu8,
        ]
    } else if i == 2 {
        // map type in traditional Chinese
        seq![
            0xa6u8, 0x61u8, 0xb9u8, 0xcfu8, 0xc3u8, 0xfeu8, 0xa7u8, 0x4fu8,
        ]
    } else if i == 3 {
        // map type in traditional Chinese, another wording
        seq![
            0xa6u8, 0x61u8, 0xb9u8, 0xcfu8, 0xc3u8, 0xfeu8, 0xabu8, 0xacu8,
        ]
    } else if i == 4 {
        // map type in Japanese
        seq![
            0x83u8, 0x7du8, 0x83u8, 0x62u8, 0x83u8, 0x76u8, 0x82u8, 0xccu8, 0x8eu8, 0xedu8,
            0x97u8, 0xdeu8,
        ]
    } else if i == 5 {
        // map type in Korean
        seq![
            0xc1u8, 0xf6u8, 0xb5u8, 0xb5u8, 0x20u8, 0xc1u8, 0xbeu8, 0xb7u8, 0xf9u8,
        ]
    } else if i == 6 {
        // Portuguese: 'Tipo de Mapa'
        seq![
            0x54u8, 0x69u8, 0x70u8, 0x6fu8, 0x20u8, 0x64u8, 0x65u8, 0x20u8, 0x4du8, 0x61u8,
            0x70u8, 0x61u8,
        ]
    } else if i == 7 {
        // German: 'Kartentyp'
        seq![
            0x4bu8, 0x61u8, 0x72u8, 0x74u8, 0x65u8, 0x6eu8, 0x74u8, 0x79u8, 0x70u8,
        ]
    } else if i == 8 {
        // English: 'Map Type'
        seq![
            0x4du8, 0x61u8, 0x70u8, 0x20u8, 0x54u8, 0x79u8, 0x70u8, 0x65u8,
        ]
    } else if i == 9 {
        // Spanish: 'Tipo de mapa'
        seq![
            0x54u8, 0x69u8, 0x70u8, 0x6fu8, 0x20u8, 0x64u8, 0x65u8, 0x20u8, 0x6du8, 0x61u8,
            0x70u8, 0x61u8,
        ]
    } else if i == 10 {
        // French: 'Type de carte'
        seq![
            0x54u8, 0x79u8, 0x70u8, 0x65u8, 0x20u8, 0x64u8, 0x65u8, 0x20u8, 0x63u8, 0x61u8,
            0x72u8, 0x74u8, 0x65u8,
        ]
    } else if i == 11 {
        // Italian: 'Tipo di mappa'
        seq![
            0x54u8, 0x69u8, 0x70u8, 0x6fu8, 0x20u8, 0x64u8, 0x69u8, 0x20u8, 0x6du8, 0x61u8,
            0x70u8, 0x70u8, 0x61u8,
        ]
    } else if i == 12 {
        // Dutch: 'Kaarttype'
        seq![
            0x4bu8, 0x61u8, 0x61u8, 0x72u8, 0x74u8, 0x74u8, 0x79u8, 0x70u8, 0x65u8,
        ]
    } else if i == 13 {
        // map type in Russian
        seq![
            0xd2u8, 0xe8u8, 0xefu8, 0x20u8, 0xeau8, 0xe0u8, 0xf0u8, 0xf2u8, 0xfbu8,
        ]
    } else if i == 14 {
        // map type in Russian, in UTF-8
        seq![
            0xd0u8, 0xa2u8, 0xd0u8, 0xb8u8, 0xd0u8, 0xbfu8, 0x20u8, 0xd0u8, 0xbau8, 0xd0u8,
            0xb0u8, 0xd1u8, 0x80u8, 0xd1u8, 0x82u8, 0xd1u8, 0x8bu8,
        ]
    } else if i == 15 {
        // map type in simplified Chinese, in UTF-8
        seq![
            0xe5u8, 0x9cu8, 0xb0u8, 0xe5u8, 0x9bu8, 0xbeu8, 0xe7u8, 0xb1u8, 0xbbu8, 0xe5u8,
            0x9eu8, 0x8bu8,
        ]
    } else if i == 16 {
        // map type in Japanese, in UTF-8
        seq![
            0xe3u8, 0x83u8, 0x9eu8, 0xe3u8, 0x83u8, 0x83u8, 0xe3u8, 0x83u8, 0x97u8, 0xe3u8,
            0x83u8, 0x81u8, 0xe7u8, 0xa8u8, 0xaeu8, 0xe9u8, 0xa1u8, 0x9eu8,
        ]
    } else {
        // map type in Korean, in UTF-8
        seq![
            0xecu8, 0xa7u8, 0x80u8, 0xebu8, 0x8fu8, 0x84u8, 0x20u8, 0xecu8, 0xa2u8, 0x85u8,
            0xebu8, 0xa5u8, 0x98u8,
        ]
    }
}

/// The label of the character set that the `i`-th wording stands for.
pub open spec fn wording_label(i: int) -> Seq<char> {
    if i <= 1 {
        "GBK"@
    } else if i <= 3 {
        "Big5"@
    } else if i == 4 {
        "Shift_JIS"@
    } else if i == 5 {
        "EUC-KR"@
    } else if i <= 12 {
        "windows-1252"@
    } else if i <= 14 {
        "windows-1251"@
    } else {
        "UTF-8"@
    }
}

/// `needle` stands somewhere in `hay`.
pub open spec fn contains_bytes(hay: Seq<u8>, needle: Seq<u8>) -> bool {
    exists|p: int| occurs_at(hay, needle, p)
}

/// The label for the first wording from the `i`-th on that stands in the
/// instructions.
pub open spec fn detected_from(instructions: Seq<u8>, i: int) -> Option<Seq<char>>
    decreases WORDINGS - i,
{
    if i < 0 || i >= WORDINGS {
        None
    } else if contains_bytes(instructions, wording(i)) {
        Some(wording_label(i))
    } else {
        detected_from(instructions, i + 1)
    }
}

/// The label of the character set of a record, where its instructions tell.
pub open spec fn detected(r: RecordView) -> Option<Seq<char>> {
    match r.instructions_raw {
        Some(text) => detected_from(text, 0),
        None => None,
    }
}

/// The `i`-th known wording of the map type line.
pub fn wording_bytes(i: usize) -> (v: Vec<u8>)
    ensures
        v@ == wording(i as int),
{
    let v: Vec<u8> = if i == 0 {
        vec![
            0xb5u8, 0xd8u8, 0xcdu8, 0xbcu8, 0xc0u8, 0xe0u8, 0xb1u8, 0xf0u8,
        ]
    } else if i == 1 {
        vec![
            0xb5u8, 0xd8u8, 0xcdu8, 0xbcu8, 0xc0u8, 0xe0u8, 0xd0u8, 0xcdu8,
        ]
    } else if i == 2 {
        vec![
            0xa6u8, 0x61u8, 0xb9u8, 0xcfu8, 0xc3u8, 0xfeu8, 0xa7u8, 0x4fu8,
        ]
    } else if i == 3 {
        vec![
            0xa6u8, 0x61u8, 0xb9u8, 0xcfu8, 0xc3u8, 0xfeu8, 0xabu8, 0xacu8,
        ]
    } else if i == 4 {
        vec![
            0x83u8, 0x7du8, 0x83u8, 0x62u8, 0x83u8, 0x76u8, 0x82u8, 0xccu8, 0x8eu8, 0xedu8,
            0x97u8, 0xdeu8,
        ]
    } else if i == 5 {
        vec![
            0xc1u8, 0xf6u8, 0xb5u8, 0xb5u8, 0x20u8, 0xc1u8, 0xbeu8, 0xb7u8, 0xf9u8,
        ]
    } else if i == 6 {
        vec![
            0x54u8, 0x69u8, 0x70u8, 0x6fu8, 0x20u8, 0x64u8, 0x65u8, 0x20u8, 0x4du8, 0x61u8,
            0x70u8, 0x61u8,
        ]
    } else if i == 7 {
        vec![
            0x4bu8, 0x61u8, 0x72u8, 0x74u8, 0x65u8, 0x6eu8, 0x74u8, 0x79u8, 0x70u8,
        ]
    } else if i == 8 {
        vec![
            0x4du8, 0x61u8, 0x70u8, 0x20u8, 0x54u8, 0x79u8, 0x70u8, 0x65u8,
        ]
    } else if i == 9 {
        vec![
            0x54u8, 0x69u8, 0x70u8, 0x6fu8, 0x20u8, 0x64u8, 0x65u8, 0x20u8, 0x6du8, 0x61u8,
            0x70u8, 0x61u8,
        ]
    } else if i == 10 {
        vec![
            0x54u8, 0x79u8, 0x70u8, 0x65u8, 0x20u8, 0x64u8, 0x65u8, 0x20u8, 0x63u8, 0x61u8,
            0x72u8, 0x74u8, 0x65u8,
        ]
    } else if i == 11 {
        vec![
            0x54u8, 0x69u8, 0x70u8, 0x6fu8, 0x20u8, 0x64u8, 0x69u8, 0x20u8, 0x6du8, 0x61u8,
            0x70u8, 0x70u8, 0x61u8,
        ]
    } else if i == 12 {
        vec![
            0x4bu8, 0x61u8, 0x61u8, 0x72u8, 0x74u8, 0x74u8, 0x79u8, 0x70u8, 0x65u8,
        ]
    } else if i == 13 {
        vec![
            0xd2u8, 0xe8u8, 0xefu8, 0x20u8, 0xeau8, 0xe0u8, 0xf0u8, 0xf2u8, 0xfbu8,
        ]
    } else if i == 14 {
        vec![
            0xd0u8, 0xa2u8, 0xd0u8, 0xb8u8, 0xd0u8, 0xbfu8, 0x20u8, 0xd0u8, 0xbau8, 0xd0u8,
            0xb0u8, 0xd1u8, 0x80u8, 0xd1u8, 0x82u8, 0xd1u8, 0x8bu8,
        ]
    } else if i == 15 {
        vec![
            0xe5u8, 0x9cu8, 0xb0u8, 0xe5u8, 0x9bu8, 0xbeu8, 0xe7u8, 0xb1u8, 0xbbu8, 0xe5u8,
            0x9eu8, 0x8bu8,
        ]
    } else if i == 16 {
        vec![
            0xe3u8, 0x83u8, 0x9eu8, 0xe3u8, 0x83u8, 0x83u8, 0xe3u8, 0x83u8, 0x97u8, 0xe3u8,
            0x83u8, 0x81u8, 0xe7u8, 0xa8u8, 0xaeu8, 0xe9u8, 0xa1u8, 0x9eu8,
        ]
    } else {
        vec![
            0xecu8, 0xa7u8, 0x80u8, 0xebu8, 0x8fu8, 0x84u8, 0x20u8, 0xecu8, 0xa2u8, 0x85u8,
            0xebu8, 0xa5u8, 0x98u8,
        ]
    };
    assert(v@ =~= wording(i as int));
    v
}

/// The label of the character set that the `i`-th wording stands for.
pub fn label_of(i: usize) -> (s: &'static str)
    ensures
        s@ == wording_label(i as int),
{
    if i <= 1 {
        "GBK"
    } else if i <= 3 {
        "Big5"
    } else if i == 4 {
        "Shift_JIS"
    } else if i == 5 {
        "EUC-KR"
    } else if i <= 12 {
        "windows-1252"
    } else if i <= 14 {
        "windows-1251"
    } else {
        "UTF-8"
    }
}

/// Whether `needle` stands somewhere in `hay`.
#[verifier::loop_isolation(false)]
pub fn contains(hay: &Vec<u8>, needle: &Vec<u8>) -> (found: bool)
    ensures
        found == contains_bytes(hay@, needle@),
{
    let n: usize = needle.len();
    if hay.len() < n {
        assert(forall|p: int| !occurs_at(hay@, needle@, p));
        return false;
    }
    let last: usize = hay.len() - n;
    let mut p: usize = 0;
    while p <= last
        invariant
            p <= last + 1,
            forall|q: int| 0 <= q < p ==> !occurs_at(hay@, needle@, q),
        decreases last + 1 - p,
    {
        let mut k: usize = 0;
        while k < n && hay[p + k] == needle[k]
            invariant
                k <= n,
                p <= last,
                forall|j: int| 0 <= j < k ==> hay@[p + j] == needle@[j],
            decreases n - k,
        {
            k = k + 1;
        }
        if k == n {
            assert(hay@.subrange(p as int, p + n) =~= needle@);
            assert(occurs_at(hay@, needle@, p as int));
            return true;
        }
        assert(!occurs_at(hay@, needle@, p as int)) by {
            if occurs_at(hay@, needle@, p as int) {
                assert(hay@.subrange(p as int, p + n)[k as int] == needle@[k as int]);
            }
        }
        p = p + 1;
    }
    assert(forall|q: int| !occurs_at(hay@, needle@, q));
    false
}

/// What a character set makes of bytes: the text that decoding under the
/// label gives, where the label names a character set.
pub uninterp spec fn decoded_text(label: Seq<char>, bytes: Seq<u8>) -> Option<Seq<char>>;

/// Runs `Encoding::for_label` of encoding_rs on the label and `decode` of the
/// encoding found on the bytes. Claimed of them: whether the label is known,
/// and the text, depend on label and bytes alone. Long input is left out,
/// since `decode` may not return where the size of its buffer overflows.
#[verifier::external_body]
fn decode_bytes(label: &str, bytes: &[u8]) -> (res: Option<String>)
    requires
        bytes@.len() <= DECODE_MAX,
    ensures
        crate::record::opt_str(res) == decoded_text(label@, bytes@),
{
    let encoding = Encoding::for_label(label.as_bytes())?;
    let (text, _, _) = encoding.decode(bytes);
    Some(text.into_owned())
}

/// The label that stands in for one that names no character set.
pub open spec fn fallback_label() -> Seq<char> {
    "GBK"@
}

/// The text of `bytes` in the character set of `label`, or in the fallback
/// one where the label names none. Text beyond the longest that is decoded
/// has none.
pub open spec fn text_in(label: Seq<char>, bytes: Seq<u8>) -> Option<Seq<char>> {
    if bytes.len() > DECODE_MAX {
        None
    } else {
        match decoded_text(label, bytes) {
            Some(t) => Some(t),
            None => decoded_text(fallback_label(), bytes),
        }
    }
}

/// A text field after decoding: the text of the bytes where there are bytes
/// that have one, and what it was before otherwise.
pub open spec fn with_text(
    before: Option<Seq<char>>,
    raw: Option<Seq<u8>>,
    label: Seq<char>,
) -> Option<Seq<char>> {
    match raw {
        None => before,
        Some(bytes) => match text_in(label, bytes) {
            Some(t) => Some(t),
            None => before,
        },
    }
}

/// The label under which a record is decoded: the one its instructions tell,
/// or the fallback one.
pub open spec fn label_for(r: RecordView) -> Seq<char> {
    match detected(r) {
        Some(l) => l,
        None => fallback_label(),
    }
}

/// The record with its instructions, the names of its players and its chat
/// decoded.
pub open spec fn converted(r: RecordView) -> RecordView {
    let label = label_for(r);
    RecordView {
        instructions: with_text(r.instructions, r.instructions_raw, label),
        players: Seq::new(
            r.players.len(),
            |i: int|
                PlayerView {
                    name: with_text(r.players[i].name, r.players[i].name_raw, label),
                    ..r.players[i]
                },
        ),
        chat: Seq::new(
            r.chat.len(),
            |i: int|
                ChatView {
                    content: with_text(r.chat[i].content, r.chat[i].content_raw, label),
                    ..r.chat[i]
                },
        ),
        ..r
    }
}

/// Decodes `raw` under `label`, where there is something to decode.
fn decode_field(raw: &Option<Vec<u8>>, label: &str) -> (res: Option<String>)
    ensures
        crate::record::opt_str(res) == match crate::cursor::opt_bytes(*raw) {
            None => None,
            Some(bytes) => text_in(label@, bytes),
        },
{
    match raw {
        None => None,
        Some(bytes) => {
            if bytes.len() > DECODE_MAX {
                return None;
            }
            match decode_bytes(label, bytes.as_slice()) {
                Some(t) => Some(t),
                None => decode_bytes("GBK", bytes.as_slice()),
            }
        },
    }
}

impl Record {
    /// The label of the character set that the instructions are written in:
    /// that of the first known wording of the map type line that stands in
    /// them.
    #[verifier::loop_isolation(false)]
    pub fn detect_encoding(&self) -> (res: Option<String>)
        ensures
            crate::record::opt_str(res) == detected(self@),
    {
        let instructions = match &self.instructions_raw {
            Some(text) => text,
            None => {
                return None;
            },
        };
        let mut i: usize = 0;
        while i < WORDINGS
            invariant
                i <= WORDINGS,
                detected_from(instructions@, i as int) == detected_from(instructions@, 0),
            decreases WORDINGS - i,
        {
            let pattern = wording_bytes(i);
            if contains(instructions, &pattern) {
                return Some(label_of(i).to_owned());
            }
            i = i + 1;
        }
        None
    }

    /// Decodes the instructions, the names of the players and the chat,
    /// under the character set that the instructions tell, or GBK where they
    /// tell none.
    #[verifier::loop_isolation(false)]
    pub fn convert_encoding(&mut self)
        ensures
            final(self)@ == converted(old(self)@),
    {
        let ghost r0 = self@;
        let label: String = match self.detect_encoding() {
            Some(l) => l,
            None => "GBK".to_owned(),
        };
        let ghost lv = label@;
        assert(lv == label_for(r0));
        match decode_field(&self.instructions_raw, label.as_str()) {
            Some(t) => {
                self.instructions = Some(t);
            },
            None => {},
        }
        let ghost r1 = self@;
        let mut s: usize = 0;
        while s < 9
            invariant
                s <= 9,
                self@ == (RecordView { players: self@.players, ..r1 }),
                self@.players.len() == 9,
                forall|k: int|
                    0 <= k < 9 ==> #[trigger] self@.players[k] == if k < s {
                        PlayerView {
                            name: with_text(r0.players[k].name, r0.players[k].name_raw, lv),
                            ..r0.players[k]
                        }
                    } else {
                        r0.players[k]
                    },
            decreases 9 - s,
        {
            let ghost prev = self@.players;
            match decode_field(&self.players[s].name_raw, label.as_str()) {
                Some(t) => {
                    let ghost tv = t@;
                    self.players[s].name = Some(t);
                    assert(self@.players =~= prev.update(
                        s as int,
                        PlayerView { name: Some(tv), ..prev[s as int] },
                    ));
                },
                None => {},
            }
            s = s + 1;
        }
        let ghost r2 = self@;
        let n: usize = self.chat.len();
        let mut c: usize = 0;
        while c < n
            invariant
                c <= n,
                n == r0.chat.len(),
                self@ == (RecordView { chat: self@.chat, ..r2 }),
                self@.chat.len() == n,
                forall|k: int|
                    0 <= k < n ==> #[trigger] self@.chat[k] == if k < c {
                        ChatView {
                            content: with_text(r0.chat[k].content, r0.chat[k].content_raw, lv),
                            ..r0.chat[k]
                        }
                    } else {
                        r0.chat[k]
                    },
            decreases n - c,
        {
            let ghost prev = self@.chat;
            match decode_field(&self.chat[c].content_raw, label.as_str()) {
                Some(t) => {
                    let ghost tv = t@;
                    self.chat[c].content = Some(t);
                    assert(self@.chat =~= prev.update(
                        c as int,
                        ChatView { content: Some(tv), ..prev[c as int] },
                    ));
                },
                None => {},
            }
            c = c + 1;
        }
        assert(self@.players =~= converted(r0).players);
        assert(self@.chat =~= converted(r0).chat);
    }
}

} // verus!
