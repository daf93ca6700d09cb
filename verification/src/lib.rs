//! Parser for UltraStar-style karaoke song files: decodes raw bytes into a
//! structured document of song metadata and timed lyric lines.

pub mod loader;
pub mod numbers;
pub mod parser;
pub mod structs;
pub mod text;

pub use loader::{
    SongError, assemble_txt_song, canonicalize_header, canonicalize_path, decode_txt_bytes,
    join_path,
};
pub use numbers::Decimal;
pub use parser::{ParserError, parse_txt_header_str, parse_txt_lines_str};
pub use structs::{Header, Line, Note, NoteType, Source, TXTSong};
