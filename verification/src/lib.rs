//! Decoder for recorded games of Age of Empires II (The Age of Kings, The
//! Conquerors and UserPatch up to 1.5).
//!
//! A recorded game is a raw-deflate compressed header followed by a plain
//! stream of operations. [`Parser`] splits the file, walks the header and the
//! body, and fills a [`Record`].
pub mod anchors;
pub mod body_parser;
pub mod bytes;
pub mod cursor;
pub mod draw_map;
pub mod error;
pub mod guess_winner;
pub mod guid;
pub mod header;
pub mod laws;
pub mod lobby;
pub mod parser;
pub mod parser_raw;
pub mod players;
pub mod record;
pub mod render;
pub mod stream;
pub mod teams;
pub mod version;

pub use cursor::StreamCursor;
pub use error::ParseError;
pub use parser::Parser;
pub use record::{Chat, DebugInfo, Player, Record, Version};
pub use stream::Stream;
