//! The decoded game: one flat record of optional values, nine player slots,
//! the chat, and the offsets that the decoder found on its way.
//!
//! Single-precision numbers of the file are kept as their 32-bit patterns;
//! `f32::from_bits` turns one into the number.
use crate::cursor::opt_bytes;
use vstd::prelude::*;

verus! {

/// Version of the recorded game
#[derive(Debug, Clone, Copy, PartialEq, Eq, Structural)]
pub enum Version {
    AoKTrial,
    AoK,
    AoCTrial,
    AoC,
    AoC10a,
    AoC10c,
    UP12,
    UP13,
    UP14,
    UP14RC1,
    UP14RC2,
    UP15,
    AoFE21,
    HD,
    DE,
    MCP,
    Unknown,
}

/// The layout is that of The Age of Kings: no log version before the body,
/// no cheat flags, no map id.
pub open spec fn is_aok(ver: Option<Version>) -> bool {
    ver == Some(Version::AoK) || ver == Some(Version::AoKTrial)
}

/// The dialects up to The Conquerors 1.0c, in whose bodies an anomaly is an
/// error.
pub open spec fn is_strict(ver: Option<Version>) -> bool {
    ver == Some(Version::AoK) || ver == Some(Version::AoKTrial) || ver == Some(Version::AoC)
        || ver == Some(Version::AoCTrial) || ver == Some(Version::AoC10a) || ver == Some(
        Version::AoC10c,
    )
}

/// Whether the layout is that of The Age of Kings.
pub fn ver_is_aok(ver: Option<Version>) -> (b: bool)
    ensures
        b == is_aok(ver),
{
    match ver {
        Some(Version::AoK) => true,
        Some(Version::AoKTrial) => true,
        _ => false,
    }
}

/// Whether the dialect is one in whose bodies an anomaly is an error.
pub fn ver_is_strict(ver: Option<Version>) -> (b: bool)
    ensures
        b == is_strict(ver),
{
    match ver {
        Some(Version::AoK) => true,
        Some(Version::AoKTrial) => true,
        Some(Version::AoC) => true,
        Some(Version::AoCTrial) => true,
        Some(Version::AoC10a) => true,
        Some(Version::AoC10c) => true,
        _ => false,
    }
}

/// The view of an optional string.
pub open spec fn opt_str(o: Option<String>) -> Option<Seq<char>> {
    match o {
        Some(s) => Some(s@),
        None => None,
    }
}

/// The view of an optional list of sizes.
pub open spec fn opt_sizes(o: Option<Vec<usize>>) -> Option<Seq<usize>> {
    match o {
        Some(v) => Some(v@),
        None => None,
    }
}

/// Information of a chat message. Lobby chats don't have time.
#[derive(Debug)]
pub struct Chat {
    pub time: Option<u32>,
    /// Never filled in.
    pub player: Option<u8>,
    pub content_raw: Option<Vec<u8>>,
    /// The text, once it was decoded.
    pub content: Option<String>,
}

/// A chat message, mathematically.
pub struct ChatView {
    pub time: Option<u32>,
    pub player: Option<u8>,
    pub content_raw: Option<Seq<u8>>,
    pub content: Option<Seq<char>>,
}

impl View for Chat {
    type V = ChatView;

    open spec fn view(&self) -> ChatView {
        ChatView {
            time: self.time,
            player: self.player,
            content_raw: opt_bytes(self.content_raw),
            content: opt_str(self.content),
        }
    }
}

/// The views of a list of chat messages.
pub open spec fn chat_views(s: Seq<Chat>) -> Seq<ChatView> {
    Seq::new(s.len(), |i: int| s[i]@)
}

/// Information of a player
#[derive(Debug)]
pub struct Player {
    pub slot: usize,
    pub index: Option<i32>,
    pub playertype: Option<i32>,
    pub name_raw: Option<Vec<u8>>,
    /// The name, once it was decoded.
    pub name: Option<String>,
    pub teamid: Option<u8>,
    pub ismainop: Option<bool>,
    /// Bit pattern of a single-precision number.
    pub initx: Option<u32>,
    /// Bit pattern of a single-precision number.
    pub inity: Option<u32>,
    pub civ_raw: Option<u8>,
    pub colorid: Option<u8>,
    pub disconnected: Option<bool>,
    pub resigned: Option<u32>,
    pub feudaltime: Option<u32>,
    pub castletime: Option<u32>,
    pub imperialtime: Option<u32>,
    /// Bit pattern of a single-precision number.
    pub initage_raw: Option<u32>,
    /// Bit pattern of a single-precision number.
    pub initfood: Option<u32>,
    /// Bit pattern of a single-precision number.
    pub initwood: Option<u32>,
    /// Bit pattern of a single-precision number.
    pub initstone: Option<u32>,
    /// Bit pattern of a single-precision number.
    pub initgold: Option<u32>,
    /// Bit pattern of a single-precision number.
    pub initpop: Option<u32>,
    /// Bit pattern of a single-precision number.
    pub initcivilian: Option<u32>,
    /// Bit pattern of a single-precision number.
    pub initmilitary: Option<u32>,
    /// Only presents in UP1.5. Bit pattern of a single-precision number.
    pub modversion: Option<u32>,
    /// Only for fair 2-sided games
    pub winner: Option<bool>,
}

/// A player, mathematically.
pub struct PlayerView {
    pub slot: usize,
    pub index: Option<i32>,
    pub playertype: Option<i32>,
    pub name_raw: Option<Seq<u8>>,
    pub name: Option<Seq<char>>,
    pub teamid: Option<u8>,
    pub ismainop: Option<bool>,
    pub initx: Option<u32>,
    pub inity: Option<u32>,
    pub civ_raw: Option<u8>,
    pub colorid: Option<u8>,
    pub disconnected: Option<bool>,
    pub resigned: Option<u32>,
    pub feudaltime: Option<u32>,
    pub castletime: Option<u32>,
    pub imperialtime: Option<u32>,
    pub initage_raw: Option<u32>,
    pub initfood: Option<u32>,
    pub initwood: Option<u32>,
    pub initstone: Option<u32>,
    pub initgold: Option<u32>,
    pub initpop: Option<u32>,
    pub initcivilian: Option<u32>,
    pub initmilitary: Option<u32>,
    pub modversion: Option<u32>,
    pub winner: Option<bool>,
}

impl PlayerView {
    /// A slot of which nothing is known yet.
    pub open spec fn empty(slot: usize) -> PlayerView {
        PlayerView {
            slot,
            index: None,
            playertype: None,
            name_raw: None,
            name: None,
            teamid: None,
            ismainop: None,
            initx: None,
            inity: None,
            civ_raw: None,
            colorid: None,
            disconnected: None,
            resigned: None,
            feudaltime: None,
            castletime: None,
            imperialtime: None,
            initage_raw: None,
            initfood: None,
            initwood: None,
            initstone: None,
            initgold: None,
            initpop: None,
            initcivilian: None,
            initmilitary: None,
            modversion: None,
            winner: None,
        }
    }

    /// A player takes part in the game when its type is between 2 and 5.
    pub open spec fn isvalid(self) -> bool {
        match self.playertype {
            Some(t) => 2 <= t <= 5,
            None => false,
        }
    }
}

impl View for Player {
    type V = PlayerView;

    open spec fn view(&self) -> PlayerView {
        PlayerView {
            slot: self.slot,
            index: self.index,
            playertype: self.playertype,
            name_raw: opt_bytes(self.name_raw),
            name: opt_str(self.name),
            teamid: self.teamid,
            ismainop: self.ismainop,
            initx: self.initx,
            inity: self.inity,
            civ_raw: self.civ_raw,
            colorid: self.colorid,
            disconnected: self.disconnected,
            resigned: self.resigned,
            feudaltime: self.feudaltime,
            castletime: self.castletime,
            imperialtime: self.imperialtime,
            initage_raw: self.initage_raw,
            initfood: self.initfood,
            initwood: self.initwood,
            initstone: self.initstone,
            initgold: self.initgold,
            initpop: self.initpop,
            initcivilian: self.initcivilian,
            initmilitary: self.initmilitary,
            modversion: self.modversion,
            winner: self.winner,
        }
    }
}

/// The views of a list of players.
pub open spec fn player_views(s: Seq<Player>) -> Seq<PlayerView> {
    Seq::new(s.len(), |i: int| s[i]@)
}

impl Player {
    /// The player of a slot, of which nothing is known yet.
    pub fn new(slot: usize) -> (p: Self)
        ensures
            p@ == PlayerView::empty(slot),
    {
        Player {
            slot,
            index: None,
            playertype: None,
            name_raw: None,
            name: None,
            teamid: None,
            ismainop: None,
            initx: None,
            inity: None,
            civ_raw: None,
            colorid: None,
            disconnected: None,
            resigned: None,
            feudaltime: None,
            castletime: None,
            imperialtime: None,
            initage_raw: None,
            initfood: None,
            initwood: None,
            initstone: None,
            initgold: None,
            initpop: None,
            initcivilian: None,
            initmilitary: None,
            modversion: None,
            winner: None,
        }
    }

    /// Whether the player takes part in the game: its type is between 2 and 5.
    pub fn isvalid(&self) -> (b: bool)
        ensures
            b == self@.isvalid(),
    {
        match self.playertype {
            Some(t) => t >= 2 && t <= 5,
            None => false,
        }
    }
}

/// Bit pattern of the double-precision number 1.6, which ends the anchor of
/// the trigger section.
pub const TRIGGER_SIGN: u64 = 0x3ff9_9999_9999_999a;

/// Debug information used by the parser
#[derive(Debug)]
pub struct DebugInfo {
    pub aipos: usize,
    pub initpos: usize,
    pub triggerpos: usize,
    /// Bit pattern of a double-precision number.
    pub triggersign: u64,
    pub settingspos: usize,
    pub disabledtechspos: usize,
    pub victorypos: usize,
    pub scenariopos: usize,
    pub mappos: Option<usize>,
    pub playerinitpos_by_idx: [Option<usize>; 9],
    pub earlymovecount: usize,
    pub earlymovecmd: Vec<[u8; 19]>,
    pub earlymovetime: Vec<u32>,
}

/// The debug information, mathematically.
pub struct DebugView {
    pub aipos: usize,
    pub initpos: usize,
    pub triggerpos: usize,
    pub triggersign: u64,
    pub settingspos: usize,
    pub disabledtechspos: usize,
    pub victorypos: usize,
    pub scenariopos: usize,
    pub mappos: Option<usize>,
    pub playerinitpos_by_idx: Seq<Option<usize>>,
    pub earlymovecount: usize,
    pub earlymovecmd: Seq<Seq<u8>>,
    pub earlymovetime: Seq<u32>,
}

impl DebugView {
    /// The debug information before anything was decoded.
    pub open spec fn empty() -> DebugView {
        DebugView {
            aipos: 0,
            initpos: 0,
            triggerpos: 0,
            triggersign: TRIGGER_SIGN,
            settingspos: 0,
            disabledtechspos: 0,
            victorypos: 0,
            scenariopos: 0,
            mappos: None,
            playerinitpos_by_idx: Seq::new(9, |i: int| None),
            earlymovecount: 0,
            earlymovecmd: Seq::empty(),
            earlymovetime: Seq::empty(),
        }
    }

    /// As many early moves as times, as many as counted, and five at most.
    pub open spec fn early_moves_ok(self) -> bool {
        &&& self.earlymovecmd.len() == self.earlymovecount
        &&& self.earlymovetime.len() == self.earlymovecount
        &&& self.earlymovecount <= 5
        &&& forall|i: int|
            0 <= i < self.earlymovecmd.len() ==> (#[trigger] self.earlymovecmd[i]).len() == 19
    }
}

/// The views of a list of early moves.
pub open spec fn move_views(s: Seq<[u8; 19]>) -> Seq<Seq<u8>> {
    Seq::new(s.len(), |i: int| s[i]@)
}

impl View for DebugInfo {
    type V = DebugView;

    open spec fn view(&self) -> DebugView {
        DebugView {
            aipos: self.aipos,
            initpos: self.initpos,
            triggerpos: self.triggerpos,
            triggersign: self.triggersign,
            settingspos: self.settingspos,
            disabledtechspos: self.disabledtechspos,
            victorypos: self.victorypos,
            scenariopos: self.scenariopos,
            mappos: self.mappos,
            playerinitpos_by_idx: self.playerinitpos_by_idx@,
            earlymovecount: self.earlymovecount,
            earlymovecmd: move_views(self.earlymovecmd@),
            earlymovetime: self.earlymovetime@,
        }
    }
}

/// The views of a list of teams.
pub open spec fn team_views(s: Seq<Vec<i32>>) -> Seq<Seq<i32>> {
    Seq::new(s.len(), |i: int| s[i]@)
}

/// Store information of this game extracted from the recorded game. Most
/// fields are `None` if not present in the recorded game or if parsing
/// stopped before them.
#[derive(Debug)]
pub struct Record {
    pub parser: String,
    pub md5: Option<String>,
    pub filename: String,
    pub filesize: usize,
    /// In milliseconds since epoch
    pub lastmod: u128,
    pub guid: Option<String>,
    pub verlog: Option<u32>,
    pub ver: Option<Version>,
    /// The seven bytes of the version tag.
    pub verraw: Option<Vec<u8>>,
    /// `11.76` for aoc10a/c. Bit pattern of a single-precision number.
    pub versave: Option<u32>,
    pub versave2: Option<u32>,
    /// Bit pattern of a single-precision number.
    pub verscenario: Option<u32>,
    pub include_ai: Option<bool>,
    pub speed_raw: Option<u32>,
    pub recorder: Option<u16>,
    /// **GAIA** is counted
    pub totalplayers: Option<u8>,
    pub mapsize_raw: Option<u32>,
    pub revealmap_raw: Option<i32>,
    pub mapx: Option<i32>,
    pub mapy: Option<i32>,
    pub fogofwar: Option<bool>,
    pub instantbuild: Option<bool>,
    pub enablecheats: Option<bool>,
    pub restoretime: Option<u32>,
    pub ismultiplayer: Option<bool>,
    pub isconquest: Option<bool>,
    pub relics2win: Option<i32>,
    pub explored2win: Option<i32>,
    pub anyorall: Option<bool>,
    pub victorytype_raw: Option<i32>,
    pub score2win: Option<i32>,
    pub time2win_raw: Option<i32>,
    pub scenariofilename_raw: Option<Vec<u8>>,
    pub instructions_raw: Option<Vec<u8>>,
    /// The instructions, once they were decoded.
    pub instructions: Option<String>,
    pub duration: u32,
    pub chat: Vec<Chat>,
    pub mapid: Option<u32>,
    pub difficulty_raw: Option<i32>,
    pub lockteams: Option<bool>,
    pub poplimit: Option<u32>,
    pub gametype_raw: Option<u8>,
    pub lockdiplomacy: Option<bool>,
    pub haswinner: bool,
    pub matchup: Option<Vec<usize>>,
    pub teams: Vec<Vec<i32>>,
    pub players: [Player; 9],
    /// Debug data used by the parser.
    pub debug: DebugInfo,
}

/// A record, mathematically.
pub struct RecordView {
    pub parser: Seq<char>,
    pub md5: Option<Seq<char>>,
    pub filename: Seq<char>,
    pub filesize: usize,
    pub lastmod: u128,
    pub guid: Option<Seq<char>>,
    pub verlog: Option<u32>,
    pub ver: Option<Version>,
    pub verraw: Option<Seq<u8>>,
    pub versave: Option<u32>,
    pub versave2: Option<u32>,
    pub verscenario: Option<u32>,
    pub include_ai: Option<bool>,
    pub speed_raw: Option<u32>,
    pub recorder: Option<u16>,
    pub totalplayers: Option<u8>,
    pub mapsize_raw: Option<u32>,
    pub revealmap_raw: Option<i32>,
    pub mapx: Option<i32>,
    pub mapy: Option<i32>,
    pub fogofwar: Option<bool>,
    pub instantbuild: Option<bool>,
    pub enablecheats: Option<bool>,
    pub restoretime: Option<u32>,
    pub ismultiplayer: Option<bool>,
    pub isconquest: Option<bool>,
    pub relics2win: Option<i32>,
    pub explored2win: Option<i32>,
    pub anyorall: Option<bool>,
    pub victorytype_raw: Option<i32>,
    pub score2win: Option<i32>,
    pub time2win_raw: Option<i32>,
    pub scenariofilename_raw: Option<Seq<u8>>,
    pub instructions_raw: Option<Seq<u8>>,
    pub instructions: Option<Seq<char>>,
    pub duration: u32,
    pub chat: Seq<ChatView>,
    pub mapid: Option<u32>,
    pub difficulty_raw: Option<i32>,
    pub lockteams: Option<bool>,
    pub poplimit: Option<u32>,
    pub gametype_raw: Option<u8>,
    pub lockdiplomacy: Option<bool>,
    pub haswinner: bool,
    pub matchup: Option<Seq<usize>>,
    pub teams: Seq<Seq<i32>>,
    pub players: Seq<PlayerView>,
    pub debug: DebugView,
}

impl RecordView {
    /// The record before anything was decoded.
    pub open spec fn empty(filename: Seq<char>, filesize: usize, lastmod: u128) -> RecordView {
        RecordView {
            parser: "mgx-rs 0.1.0"@,
            md5: None,
            filename,
            filesize,
            lastmod,
            guid: None,
            verlog: None,
            ver: None,
            verraw: None,
            versave: None,
            versave2: None,
            verscenario: None,
            include_ai: None,
            speed_raw: None,
            recorder: None,
            totalplayers: None,
            mapsize_raw: None,
            revealmap_raw: None,
            mapx: None,
            mapy: None,
            fogofwar: None,
            instantbuild: None,
            enablecheats: None,
            restoretime: None,
            ismultiplayer: None,
            isconquest: None,
            relics2win: None,
            explored2win: None,
            anyorall: None,
            victorytype_raw: None,
            score2win: None,
            time2win_raw: None,
            scenariofilename_raw: None,
            instructions_raw: None,
            instructions: None,
            duration: 0,
            chat: Seq::empty(),
            mapid: None,
            difficulty_raw: None,
            lockteams: None,
            poplimit: None,
            gametype_raw: None,
            lockdiplomacy: None,
            haswinner: false,
            matchup: None,
            teams: Seq::empty(),
            players: Seq::new(9, |i: int| PlayerView::empty(i as usize)),
            debug: DebugView::empty(),
        }
    }

    /// Nine player slots and nine init positions.
    pub open spec fn shaped(self) -> bool {
        self.players.len() == 9 && self.debug.playerinitpos_by_idx.len() == 9
    }
}

impl View for Record {
    type V = RecordView;

    open spec fn view(&self) -> RecordView {
        RecordView {
            parser: self.parser@,
            md5: opt_str(self.md5),
            filename: self.filename@,
            filesize: self.filesize,
            lastmod: self.lastmod,
            guid: opt_str(self.guid),
            verlog: self.verlog,
            ver: self.ver,
            verraw: opt_bytes(self.verraw),
            versave: self.versave,
            versave2: self.versave2,
            verscenario: self.verscenario,
            include_ai: self.include_ai,
            speed_raw: self.speed_raw,
            recorder: self.recorder,
            totalplayers: self.totalplayers,
            mapsize_raw: self.mapsize_raw,
            revealmap_raw: self.revealmap_raw,
            mapx: self.mapx,
            mapy: self.mapy,
            fogofwar: self.fogofwar,
            instantbuild: self.instantbuild,
            enablecheats: self.enablecheats,
            restoretime: self.restoretime,
            ismultiplayer: self.ismultiplayer,
            isconquest: self.isconquest,
            relics2win: self.relics2win,
            explored2win: self.explored2win,
            anyorall: self.anyorall,
            victorytype_raw: self.victorytype_raw,
            score2win: self.score2win,
            time2win_raw: self.time2win_raw,
            scenariofilename_raw: opt_bytes(self.scenariofilename_raw),
            instructions_raw: opt_bytes(self.instructions_raw),
            instructions: opt_str(self.instructions),
            duration: self.duration,
            chat: chat_views(self.chat@),
            mapid: self.mapid,
            difficulty_raw: self.difficulty_raw,
            lockteams: self.lockteams,
            poplimit: self.poplimit,
            gametype_raw: self.gametype_raw,
            lockdiplomacy: self.lockdiplomacy,
            haswinner: self.haswinner,
            matchup: opt_sizes(self.matchup),
            teams: team_views(self.teams@),
            players: player_views(self.players@),
            debug: self.debug@,
        }
    }
}

impl Record {
    /// An empty record for the file of that name, size and modification time.
    pub fn new(filename: String, filesize: usize, lastmod: u128) -> (r: Self)
        ensures
            r@ == RecordView::empty(filename@, filesize, lastmod),
            r@.shaped(),
    {
        let r = Record {
            parser: "mgx-rs 0.1.0".to_owned(),
            md5: None,
            filename,
            filesize,
            lastmod,
            guid: None,
            verlog: None,
            ver: None,
            verraw: None,
            versave: None,
            versave2: None,
            verscenario: None,
            include_ai: None,
            speed_raw: None,
            recorder: None,
            totalplayers: None,
            mapsize_raw: None,
            revealmap_raw: None,
            mapx: None,
            mapy: None,
            fogofwar: None,
            instantbuild: None,
            enablecheats: None,
            restoretime: None,
            ismultiplayer: None,
            isconquest: None,
            relics2win: None,
            explored2win: None,
            anyorall: None,
            victorytype_raw: None,
            score2win: None,
            time2win_raw: None,
            scenariofilename_raw: None,
            instructions_raw: None,
            instructions: None,
            duration: 0,
            chat: Vec::new(),
            mapid: None,
            difficulty_raw: None,
            lockteams: None,
            poplimit: None,
            gametype_raw: None,
            lockdiplomacy: None,
            haswinner: false,
            matchup: None,
            teams: Vec::new(),
            players: [
                Player::new(0),
                Player::new(1),
                Player::new(2),
                Player::new(3),
                Player::new(4),
                Player::new(5),
                Player::new(6),
                Player::new(7),
                Player::new(8),
            ],
            debug: DebugInfo {
                aipos: 0,
                initpos: 0,
                triggerpos: 0,
                triggersign: TRIGGER_SIGN,
                settingspos: 0,
                disabledtechspos: 0,
                victorypos: 0,
                scenariopos: 0,
                mappos: None,
                playerinitpos_by_idx: [None, None, None, None, None, None, None, None, None],
                earlymovecount: 0,
                earlymovecmd: Vec::new(),
                earlymovetime: Vec::new(),
            },
        };
        assert(r@.chat =~= Seq::empty());
        assert(r@.teams =~= Seq::empty());
        assert(r@.players =~= Seq::new(9, |i: int| PlayerView::empty(i as usize)));
        assert(r@.debug.playerinitpos_by_idx =~= Seq::new(9, |i: int| None));
        assert(r@.debug.earlymovecmd =~= Seq::empty());
        r
    }
}

} // verus!
