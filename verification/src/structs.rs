//! The song document: header metadata, timed lines and notes, and the
//! local/remote classification of file references.

use vstd::prelude::*;
use crate::numbers::Decimal;

verus! {

/// A file reference from the header: on the local filesystem, or remote.
#[derive(Clone, Debug, PartialEq, Eq)]
pub enum Source {
    Local(String),
    Remote(String),
}

/// Mathematical model of a `Source`.
#[verifier::ext_equal]
pub enum SourceV {
    Local(Seq<char>),
    Remote(Seq<char>),
}

impl View for Source {
    type V = SourceV;

    open spec fn view(&self) -> SourceV {
        match self {
            Source::Local(p) => SourceV::Local(p@),
            Source::Remote(p) => SourceV::Remote(p@),
        }
    }
}

/// The kind of a timed note, as named by its type character.
#[derive(Clone, Copy, Debug, PartialEq, Eq, Structural)]
pub enum NoteType {
    Regular,
    Golden,
    Freestyle,
}

/// One element of a line: a timed note of one of three kinds, or a player
/// change marker, which carries no timing.
#[derive(Clone, Debug, PartialEq, Eq)]
pub enum Note {
    Regular { start: i32, duration: i32, pitch: i32, text: String },
    Golden { start: i32, duration: i32, pitch: i32, text: String },
    Freestyle { start: i32, duration: i32, pitch: i32, text: String },
    PlayerChange { player: i32 },
}

/// Mathematical model of a `Note`.
#[verifier::ext_equal]
pub enum NoteV {
    Regular { start: i32, duration: i32, pitch: i32, text: Seq<char> },
    Golden { start: i32, duration: i32, pitch: i32, text: Seq<char> },
    Freestyle { start: i32, duration: i32, pitch: i32, text: Seq<char> },
    PlayerChange { player: i32 },
}

impl View for Note {
    type V = NoteV;

    open spec fn view(&self) -> NoteV {
        match self {
            Note::Regular { start, duration, pitch, text } => NoteV::Regular {
                start: *start,
                duration: *duration,
                pitch: *pitch,
                text: text@,
            },
            Note::Golden { start, duration, pitch, text } => NoteV::Golden {
                start: *start,
                duration: *duration,
                pitch: *pitch,
                text: text@,
            },
            Note::Freestyle { start, duration, pitch, text } => NoteV::Freestyle {
                start: *start,
                duration: *duration,
                pitch: *pitch,
                text: text@,
            },
            Note::PlayerChange { player } => NoteV::PlayerChange { player: *player },
        }
    }
}

impl Note {
    /// The kind of a timed note; a player-change marker has none.
    pub fn note_type(&self) -> (r: Option<NoteType>)
        ensures
            r == (match self@ {
                NoteV::Regular { .. } => Some(NoteType::Regular),
                NoteV::Golden { .. } => Some(NoteType::Golden),
                NoteV::Freestyle { .. } => Some(NoteType::Freestyle),
                NoteV::PlayerChange { .. } => None::<NoteType>,
            }),
    {
        match self {
            Note::Regular { .. } => Some(NoteType::Regular),
            Note::Golden { .. } => Some(NoteType::Golden),
            Note::Freestyle { .. } => Some(NoteType::Freestyle),
            Note::PlayerChange { .. } => None,
        }
    }
}

/// A lyric line: the beat at which it begins, an offset to the previous line
/// under relative timing, and its notes in performance order.
#[derive(Clone, Debug, PartialEq, Eq)]
pub struct Line {
    pub start: i32,
    pub rel: Option<i32>,
    pub notes: Vec<Note>,
}

/// Mathematical model of a `Line`.
#[verifier::ext_equal]
pub struct LineV {
    pub start: i32,
    pub rel: Option<i32>,
    pub notes: Seq<NoteV>,
}

impl View for Line {
    type V = LineV;

    open spec fn view(&self) -> LineV {
        LineV {
            start: self.start,
            rel: self.rel,
            notes: self.notes@.map_values(|n: Note| n@),
        }
    }
}

/// View of an optional text field.
pub open spec fn opt_str_view(o: Option<String>) -> Option<Seq<char>> {
    match o {
        Some(s) => Some(s@),
        None => None,
    }
}

/// View of an optional file reference.
pub open spec fn opt_source_view(o: Option<Source>) -> Option<SourceV> {
    match o {
        Some(s) => Some(s@),
        None => None,
    }
}

/// View of the unknown-tag mapping.
pub open spec fn unknown_view(u: Seq<(String, String)>) -> Seq<(Seq<char>, Seq<char>)> {
    u.map_values(|p: (String, String)| (p.0@, p.1@))
}

/// The song metadata block. Each recognized tag appears at most once; the
/// parser returns no header at all when a mandatory field is missing.
#[derive(Clone, Debug, PartialEq, Eq)]
pub struct Header {
    pub artist: String,
    pub title: String,
    pub bpm: Decimal,
    pub audio_path: Source,
    pub gap: Option<Decimal>,
    pub cover_path: Option<Source>,
    pub background_path: Option<Source>,
    pub video_path: Option<Source>,
    pub video_gap: Option<Decimal>,
    pub genre: Option<String>,
    pub edition: Option<String>,
    pub language: Option<String>,
    pub year: Option<u32>,
    pub relative: Option<bool>,
    pub unknown: Vec<(String, String)>,
}

/// Mathematical model of a `Header`.
#[verifier::ext_equal]
pub struct HeaderV {
    pub artist: Seq<char>,
    pub title: Seq<char>,
    pub bpm: Decimal,
    pub audio_path: SourceV,
    pub gap: Option<Decimal>,
    pub cover_path: Option<SourceV>,
    pub background_path: Option<SourceV>,
    pub video_path: Option<SourceV>,
    pub video_gap: Option<Decimal>,
    pub genre: Option<Seq<char>>,
    pub edition: Option<Seq<char>>,
    pub language: Option<Seq<char>>,
    pub year: Option<u32>,
    pub relative: Option<bool>,
    pub unknown: Seq<(Seq<char>, Seq<char>)>,
}

impl View for Header {
    type V = HeaderV;

    open spec fn view(&self) -> HeaderV {
        HeaderV {
            artist: self.artist@,
            title: self.title@,
            bpm: self.bpm,
            audio_path: self.audio_path@,
            gap: self.gap,
            cover_path: opt_source_view(self.cover_path),
            background_path: opt_source_view(self.background_path),
            video_path: opt_source_view(self.video_path),
            video_gap: self.video_gap,
            genre: opt_str_view(self.genre),
            edition: opt_str_view(self.edition),
            language: opt_str_view(self.language),
            year: self.year,
            relative: self.relative,
            unknown: unknown_view(self.unknown@),
        }
    }
}

/// A fully parsed song document: one header and the lines in order.
#[derive(Clone, Debug, PartialEq, Eq)]
pub struct TXTSong {
    pub header: Header,
    pub lines: Vec<Line>,
}

/// Mathematical model of a `TXTSong`.
#[verifier::ext_equal]
pub struct TXTSongV {
    pub header: HeaderV,
    pub lines: Seq<LineV>,
}

impl View for TXTSong {
    type V = TXTSongV;

    open spec fn view(&self) -> TXTSongV {
        TXTSongV { header: self.header@, lines: self.lines@.map_values(|l: Line| l@) }
    }
}

} // verus!
