//! The header and body parsers: two independent passes over the decoded text.
//! The header pass reads the leading `#TAG:value` block; the body pass turns
//! the remaining lines into timed lines and notes.

use vstd::prelude::*;
use crate::numbers::{
    Decimal, normalize_commas, parse_decimal, parse_i32, parse_u32, spec_parse_decimal,
    spec_parse_i32, spec_parse_u32,
};
use crate::structs::{
    Header, HeaderV, Line, LineV, Note, NoteV, Source, SourceV, opt_str_view, unknown_view,
};
use crate::text::{
    find_char, find_from, is_digit, spec_lines, split_lines, str_eq, substring,
};

verus! {

/// A failure of the header or body pass, with the 1-based source line number
/// where one applies.
#[derive(Clone, Debug, PartialEq, Eq)]
pub enum ParserError {
    DuplicateHeader { line: u64, tag: String },
    MissingEssential,
    ValueError { line: u64, field: String },
    UnknownNoteType { line: u64 },
    ParserFailure { line: u64 },
}

/// Mathematical model of a `ParserError`.
#[verifier::ext_equal]
pub enum ParserErrorV {
    DuplicateHeader { line: int, tag: Seq<char> },
    MissingEssential,
    ValueError { line: int, field: Seq<char> },
    UnknownNoteType { line: int },
    ParserFailure { line: int },
}

impl View for ParserError {
    type V = ParserErrorV;

    open spec fn view(&self) -> ParserErrorV {
        match self {
            ParserError::DuplicateHeader { line, tag } => ParserErrorV::DuplicateHeader {
                line: *line as int,
                tag: tag@,
            },
            ParserError::MissingEssential => ParserErrorV::MissingEssential,
            ParserError::ValueError { line, field } => ParserErrorV::ValueError {
                line: *line as int,
                field: field@,
            },
            ParserError::UnknownNoteType { line } => ParserErrorV::UnknownNoteType {
                line: *line as int,
            },
            ParserError::ParserFailure { line } => ParserErrorV::ParserFailure {
                line: *line as int,
            },
        }
    }
}

/// A character allowed in a header tag name: an upper-case letter, or the
/// digit of `MP3`.
pub open spec fn is_tag_char(c: char) -> bool {
    (65 <= c as u32 <= 90) || c == '3'
}

/// End of the run of tag characters starting at `i`.
pub open spec fn tag_run_end(l: Seq<char>, i: int) -> int
    decreases l.len() - i,
{
    if i < 0 || i >= l.len() {
        i
    } else if !is_tag_char(l[i]) {
        i
    } else {
        tag_run_end(l, i + 1)
    }
}

/// The header-tag pattern: `#`, a run of tag characters, `:`, then the value
/// as the rest of the line. Yields the tag name and the raw value.
pub open spec fn spec_header_capture(l: Seq<char>) -> Option<(Seq<char>, Seq<char>)> {
    if l.len() == 0 || l[0] != '#' {
        None
    } else {
        let e = tag_run_end(l, 1);
        if e < l.len() && l[e] == ':' {
            Some((l.subrange(1, e), l.subrange(e + 1, l.len() as int)))
        } else {
            None
        }
    }
}

/// Scans the run of tag characters that starts after the leading `#`.
fn tag_run_scan(l: &str) -> (e: usize)
    requires
        l@.len() >= 1,
    ensures
        e == tag_run_end(l@, 1),
        1 <= e <= l@.len(),
{
    let len = l.unicode_len();
    let mut e: usize = 1;
    while e < len
        invariant
            1 <= e <= len,
            len == l@.len(),
            tag_run_end(l@, 1) == tag_run_end(l@, e as int),
        decreases len - e,
    {
        let c = l.get_char(e);
        let cv = c as u32;
        if !((65 <= cv && cv <= 90) || c == '3') {
            assert(!is_tag_char(l@[e as int]));
            return e;
        }
        assert(is_tag_char(l@[e as int]));
        e += 1;
    }
    e
}

/// Matches one line against the header-tag pattern.
pub fn header_capture(l: &str) -> (r: Option<(String, String)>)
    ensures
        match r {
            Some(p) => spec_header_capture(l@) == Some((p.0@, p.1@)),
            None => spec_header_capture(l@) is None,
        },
{
    let len = l.unicode_len();
    if len == 0 || l.get_char(0) != '#' {
        return None;
    }
    let e = tag_run_scan(l);
    if e < len && l.get_char(e) == ':' {
        let k = substring(l, 1, e);
        let v = substring(l, e + 1, len);
        Some((k, v))
    } else {
        None
    }
}

/// The recognized header tags.
#[derive(Clone, Copy, Debug, PartialEq, Eq, Structural)]
pub enum Tag {
    Title,
    Artist,
    Mp3,
    Gap,
    Bpm,
    Cover,
    Background,
    Video,
    VideoGap,
    Genre,
    Edition,
    Language,
    Year,
    Relative,
}

/// Which recognized tag, if any, a tag name denotes.
pub open spec fn tag_of(k: Seq<char>) -> Option<Tag> {
    if k == "TITLE"@ {
        Some(Tag::Title)
    } else if k == "ARTIST"@ {
        Some(Tag::Artist)
    } else if k == "MP3"@ {
        Some(Tag::Mp3)
    } else if k == "GAP"@ {
        Some(Tag::Gap)
    } else if k == "BPM"@ {
        Some(Tag::Bpm)
    } else if k == "COVER"@ {
        Some(Tag::Cover)
    } else if k == "BACKGROUND"@ {
        Some(Tag::Background)
    } else if k == "VIDEO"@ {
        Some(Tag::Video)
    } else if k == "VIDEOGAP"@ {
        Some(Tag::VideoGap)
    } else if k == "GENRE"@ {
        Some(Tag::Genre)
    } else if k == "EDITION"@ {
        Some(Tag::Edition)
    } else if k == "LANGUAGE"@ {
        Some(Tag::Language)
    } else if k == "YEAR"@ {
        Some(Tag::Year)
    } else if k == "RELATIVE"@ {
        Some(Tag::Relative)
    } else {
        None
    }
}

/// Recognizes a tag name.
pub fn recognize_tag(k: &str) -> (r: Option<Tag>)
    ensures
        r == tag_of(k@),
{
    if str_eq(k, "TITLE") {
        Some(Tag::Title)
    } else if str_eq(k, "ARTIST") {
        Some(Tag::Artist)
    } else if str_eq(k, "MP3") {
        Some(Tag::Mp3)
    } else if str_eq(k, "GAP") {
        Some(Tag::Gap)
    } else if str_eq(k, "BPM") {
        Some(Tag::Bpm)
    } else if str_eq(k, "COVER") {
        Some(Tag::Cover)
    } else if str_eq(k, "BACKGROUND") {
        Some(Tag::Background)
    } else if str_eq(k, "VIDEO") {
        Some(Tag::Video)
    } else if str_eq(k, "VIDEOGAP") {
        Some(Tag::VideoGap)
    } else if str_eq(k, "GENRE") {
        Some(Tag::Genre)
    } else if str_eq(k, "EDITION") {
        Some(Tag::Edition)
    } else if str_eq(k, "LANGUAGE") {
        Some(Tag::Language)
    } else if str_eq(k, "YEAR") {
        Some(Tag::Year)
    } else if str_eq(k, "RELATIVE") {
        Some(Tag::Relative)
    } else {
        None
    }
}

/// The partial header accumulated while the tag block is consumed.
struct HeaderAcc {
    title: Option<String>,
    artist: Option<String>,
    bpm: Option<Decimal>,
    gap: Option<Decimal>,
    audio_path: Option<String>,
    cover_path: Option<String>,
    background_path: Option<String>,
    video_path: Option<String>,
    video_gap: Option<Decimal>,
    genre: Option<String>,
    edition: Option<String>,
    language: Option<String>,
    year: Option<u32>,
    relative: Option<bool>,
    unknown: Vec<(String, String)>,
}

/// Mathematical model of the partial header state.
#[verifier::ext_equal]
pub struct HStateV {
    pub title: Option<Seq<char>>,
    pub artist: Option<Seq<char>>,
    pub bpm: Option<Decimal>,
    pub gap: Option<Decimal>,
    pub audio_path: Option<Seq<char>>,
    pub cover_path: Option<Seq<char>>,
    pub background_path: Option<Seq<char>>,
    pub video_path: Option<Seq<char>>,
    pub video_gap: Option<Decimal>,
    pub genre: Option<Seq<char>>,
    pub edition: Option<Seq<char>>,
    pub language: Option<Seq<char>>,
    pub year: Option<u32>,
    pub relative: Option<bool>,
    pub unknown: Seq<(Seq<char>, Seq<char>)>,
}

impl View for HeaderAcc {
    type V = HStateV;

    closed spec fn view(&self) -> HStateV {
        HStateV {
            title: opt_str_view(self.title),
            artist: opt_str_view(self.artist),
            bpm: self.bpm,
            gap: self.gap,
            audio_path: opt_str_view(self.audio_path),
            cover_path: opt_str_view(self.cover_path),
            background_path: opt_str_view(self.background_path),
            video_path: opt_str_view(self.video_path),
            video_gap: self.video_gap,
            genre: opt_str_view(self.genre),
            edition: opt_str_view(self.edition),
            language: opt_str_view(self.language),
            year: self.year,
            relative: self.relative,
            unknown: unknown_view(self.unknown@),
        }
    }
}

/// The state before any header line is consumed: nothing set.
pub open spec fn init_hstate() -> HStateV {
    HStateV {
        title: None,
        artist: None,
        bpm: None,
        gap: None,
        audio_path: None,
        cover_path: None,
        background_path: None,
        video_path: None,
        video_gap: None,
        genre: None,
        edition: None,
        language: None,
        year: None,
        relative: None,
        unknown: Seq::empty(),
    }
}

/// First entry of the unknown-tag mapping whose key is `k`, at or after
/// `from`.
pub open spec fn find_key(u: Seq<(Seq<char>, Seq<char>)>, k: Seq<char>, from: int) -> Option<int>
    decreases u.len() - from,
{
    if from < 0 || from >= u.len() {
        None
    } else if u[from].0 == k {
        Some(from)
    } else {
        find_key(u, k, from + 1)
    }
}

/// The unknown-tag mapping with `k` bound to `v`: a previous binding of `k`
/// is replaced, so keys stay unique. The order of entries is not significant.
pub open spec fn set_unknown(
    u: Seq<(Seq<char>, Seq<char>)>,
    k: Seq<char>,
    v: Seq<char>,
) -> Seq<(Seq<char>, Seq<char>)> {
    match find_key(u, k, 0) {
        Some(i) => u.remove(i).push((k, v)),
        None => u.push((k, v)),
    }
}

/// First entry with key `k` in the accumulated unknown-tag pairs.
fn find_pair(u: &Vec<(String, String)>, k: &str) -> (r: Option<usize>)
    ensures
        match r {
            Some(i) => find_key(unknown_view(u@), k@, 0) == Some(i as int) && i < u@.len(),
            None => find_key(unknown_view(u@), k@, 0) is None,
        },
{
    let ghost uv = unknown_view(u@);
    let mut i: usize = 0;
    while i < u.len()
        invariant
            i <= u@.len(),
            uv == unknown_view(u@),
            uv.len() == u@.len(),
            find_key(uv, k@, 0) == find_key(uv, k@, i as int),
        decreases u@.len() - i,
    {
        assert(uv[i as int].0 == u@[i as int].0@);
        if str_eq(u[i].0.as_str(), k) {
            return Some(i);
        }
        i += 1;
    }
    None
}

/// How one recognized or unrecognized tag advances the header state: a repeat
/// of a recognized tag is a duplicate-header failure, a malformed value is a
/// value failure, and an unrecognized tag is recorded in the unknown-tag
/// mapping.
pub open spec fn step_tag(st: HStateV, k: Seq<char>, v: Seq<char>, n: int) -> Result<
    HStateV,
    ParserErrorV,
> {
    match tag_of(k) {
        Some(Tag::Title) => if st.title is Some {
            Err(ParserErrorV::DuplicateHeader { line: n, tag: "TITLE"@ })
        } else {
            Ok(HStateV { title: Some(v), ..st })
        },
        Some(Tag::Artist) => if st.artist is Some {
            Err(ParserErrorV::DuplicateHeader { line: n, tag: "ARTIST"@ })
        } else {
            Ok(HStateV { artist: Some(v), ..st })
        },
        Some(Tag::Mp3) => if st.audio_path is Some {
            Err(ParserErrorV::DuplicateHeader { line: n, tag: "MP3"@ })
        } else {
            Ok(HStateV { audio_path: Some(v), ..st })
        },
        Some(Tag::Gap) => if st.gap is Some {
            Err(ParserErrorV::DuplicateHeader { line: n, tag: "GAP"@ })
        } else {
            match spec_parse_decimal(normalize_commas(v)) {
                None => Err(ParserErrorV::ValueError { line: n, field: "GAP"@ }),
                Some(d) => Ok(HStateV { gap: Some(d), ..st }),
            }
        },
        Some(Tag::Bpm) => if st.bpm is Some {
            Err(ParserErrorV::DuplicateHeader { line: n, tag: "BPM"@ })
        } else {
            match spec_parse_decimal(normalize_commas(v)) {
                None => Err(ParserErrorV::ValueError { line: n, field: "BPM"@ }),
                Some(d) => Ok(HStateV { bpm: Some(d), ..st }),
            }
        },
        Some(Tag::Cover) => if st.cover_path is Some {
            Err(ParserErrorV::DuplicateHeader { line: n, tag: "COVER"@ })
        } else {
            Ok(HStateV { cover_path: Some(v), ..st })
        },
        Some(Tag::Background) => if st.background_path is Some {
            Err(ParserErrorV::DuplicateHeader { line: n, tag: "BACKGROUND"@ })
        } else {
            Ok(HStateV { background_path: Some(v), ..st })
        },
        Some(Tag::Video) => if st.video_path is Some {
            Err(ParserErrorV::DuplicateHeader { line: n, tag: "VIDEO"@ })
        } else {
            Ok(HStateV { video_path: Some(v), ..st })
        },
        Some(Tag::VideoGap) => if st.video_gap is Some {
            Err(ParserErrorV::DuplicateHeader { line: n, tag: "VIDEOGAP"@ })
        } else {
            match spec_parse_decimal(normalize_commas(v)) {
                None => Err(ParserErrorV::ValueError { line: n, field: "VIDEOGAP"@ }),
                Some(d) => Ok(HStateV { video_gap: Some(d), ..st }),
            }
        },
        Some(Tag::Genre) => if st.genre is Some {
            Err(ParserErrorV::DuplicateHeader { line: n, tag: "GENRE"@ })
        } else {
            Ok(HStateV { genre: Some(v), ..st })
        },
        Some(Tag::Edition) => if st.edition is Some {
            Err(ParserErrorV::DuplicateHeader { line: n, tag: "EDITION"@ })
        } else {
            Ok(HStateV { edition: Some(v), ..st })
        },
        Some(Tag::Language) => if st.language is Some {
            Err(ParserErrorV::DuplicateHeader { line: n, tag: "LANGUAGE"@ })
        } else {
            Ok(HStateV { language: Some(v), ..st })
        },
        Some(Tag::Year) => if st.year is Some {
            Err(ParserErrorV::DuplicateHeader { line: n, tag: "YEAR"@ })
        } else {
            match spec_parse_u32(v) {
                None => Err(ParserErrorV::ValueError { line: n, field: "YEAR"@ }),
                Some(y) => Ok(HStateV { year: Some(y), ..st }),
            }
        },
        Some(Tag::Relative) => if st.relative is Some {
            Err(ParserErrorV::DuplicateHeader { line: n, tag: "RELATIVE"@ })
        } else {
            if v == "YES"@ {
                Ok(HStateV { relative: Some(true), ..st })
            } else if v == "NO"@ {
                Ok(HStateV { relative: Some(false), ..st })
            } else {
                Err(ParserErrorV::ValueError { line: n, field: "RELATIVE"@ })
            }
        },
        None => Ok(HStateV { unknown: set_unknown(st.unknown, k, v), ..st }),
    }
}

/// The header owed once the tag block has ended: the mandatory `TITLE`,
/// `ARTIST`, `BPM` and `MP3` fields must all have been seen, else the whole
/// header is missing-essential; `GAP` and the other optional fields keep
/// their state.
pub open spec fn finish_header(st: HStateV) -> Result<HeaderV, ParserErrorV> {
    if st.title is Some && st.artist is Some && st.bpm is Some && st.audio_path is Some {
        Ok(
            HeaderV {
                artist: st.artist.unwrap(),
                title: st.title.unwrap(),
                bpm: st.bpm.unwrap(),
                audio_path: SourceV::Local(st.audio_path.unwrap()),
                gap: st.gap,
                cover_path: match st.cover_path {
                    Some(p) => Some(SourceV::Local(p)),
                    None => None,
                },
                background_path: match st.background_path {
                    Some(p) => Some(SourceV::Local(p)),
                    None => None,
                },
                video_path: match st.video_path {
                    Some(p) => Some(SourceV::Local(p)),
                    None => None,
                },
                video_gap: st.video_gap,
                genre: st.genre,
                edition: st.edition,
                language: st.language,
                year: st.year,
                relative: st.relative,
                unknown: st.unknown,
            },
        )
    } else {
        Err(ParserErrorV::MissingEssential)
    }
}

/// The header pass over the lines from `i` on, with partial state `st`:
/// stops at the first line that does not match the header-tag pattern, and
/// only then checks that the mandatory fields were all seen.
pub open spec fn parse_header_lines(lines: Seq<Seq<char>>, i: int, st: HStateV) -> Result<
    HeaderV,
    ParserErrorV,
>
    decreases lines.len() - i,
{
    if i < 0 || i >= lines.len() {
        finish_header(st)
    } else {
        match spec_header_capture(lines[i]) {
            None => finish_header(st),
            Some(kv) => match step_tag(st, kv.0, kv.1, i + 1) {
                Err(e) => Err(e),
                Ok(st2) => parse_header_lines(lines, i + 1, st2),
            },
        }
    }
}

/// What the header pass yields on the full text.
pub open spec fn spec_parse_header(text: Seq<char>) -> Result<HeaderV, ParserErrorV> {
    parse_header_lines(spec_lines(text), 0, init_hstate())
}

/// The canonical name of a recognized tag, as `DuplicateHeader` reports it.
pub open spec fn tag_name(t: Tag) -> Seq<char> {
    match t {
        Tag::Title => "TITLE"@,
        Tag::Artist => "ARTIST"@,
        Tag::Mp3 => "MP3"@,
        Tag::Gap => "GAP"@,
        Tag::Bpm => "BPM"@,
        Tag::Cover => "COVER"@,
        Tag::Background => "BACKGROUND"@,
        Tag::Video => "VIDEO"@,
        Tag::VideoGap => "VIDEOGAP"@,
        Tag::Genre => "GENRE"@,
        Tag::Edition => "EDITION"@,
        Tag::Language => "LANGUAGE"@,
        Tag::Year => "YEAR"@,
        Tag::Relative => "RELATIVE"@,
    }
}

/// Whether the field of a recognized tag has been set in the partial state.
pub open spec fn tag_set(st: HStateV, t: Tag) -> bool {
    match t {
        Tag::Title => st.title is Some,
        Tag::Artist => st.artist is Some,
        Tag::Mp3 => st.audio_path is Some,
        Tag::Gap => st.gap is Some,
        Tag::Bpm => st.bpm is Some,
        Tag::Cover => st.cover_path is Some,
        Tag::Background => st.background_path is Some,
        Tag::Video => st.video_path is Some,
        Tag::VideoGap => st.video_gap is Some,
        Tag::Genre => st.genre is Some,
        Tag::Edition => st.edition is Some,
        Tag::Language => st.language is Some,
        Tag::Year => st.year is Some,
        Tag::Relative => st.relative is Some,
    }
}

/// The header state after the first `n` lines, when they were all consumed
/// as header lines without failure; `None` otherwise.
pub open spec fn hstate_after(lines: Seq<Seq<char>>, n: int) -> Option<HStateV>
    decreases n,
{
    if n <= 0 {
        Some(init_hstate())
    } else if n > lines.len() {
        None
    } else {
        match hstate_after(lines, n - 1) {
            None => None,
            Some(st) => match spec_header_capture(lines[n - 1]) {
                None => None,
                Some(kv) => match step_tag(st, kv.0, kv.1, n) {
                    Ok(st2) => Some(st2),
                    Err(_) => None,
                },
            },
        }
    }
}

/// A successful step sets the field of the recognized tag it consumed.
proof fn lemma_step_sets(st: HStateV, k: Seq<char>, v: Seq<char>, n: int, t: Tag)
    requires
        tag_of(k) == Some(t),
        step_tag(st, k, v, n) is Ok,
    ensures
        tag_set(step_tag(st, k, v, n)->Ok_0, t),
{
}

/// A successful step never unsets a field that was already set.
proof fn lemma_step_monotone(st: HStateV, k: Seq<char>, v: Seq<char>, n: int, t: Tag)
    requires
        step_tag(st, k, v, n) is Ok,
        tag_set(st, t),
    ensures
        tag_set(step_tag(st, k, v, n)->Ok_0, t),
{
}

/// A step on a recognized tag whose field is already set fails with exactly
/// the duplicate-header error naming that tag and line.
proof fn lemma_step_duplicate(st: HStateV, k: Seq<char>, v: Seq<char>, n: int, t: Tag)
    requires
        tag_of(k) == Some(t),
        tag_set(st, t),
    ensures
        step_tag(st, k, v, n) == Err::<HStateV, ParserErrorV>(
            ParserErrorV::DuplicateHeader { line: n, tag: tag_name(t) },
        ),
{
}

/// A failure-free prefix is failure-free at every earlier cut, and each line
/// of it captured and stepped successfully.
proof fn lemma_hstate_prefix(lines: Seq<Seq<char>>, m: int, j: int)
    requires
        0 <= m <= j,
        hstate_after(lines, j) is Some,
    ensures
        hstate_after(lines, m) is Some,
        m < j ==> spec_header_capture(lines[m]) is Some,
        m < j ==> step_tag(
            hstate_after(lines, m).unwrap(),
            spec_header_capture(lines[m]).unwrap().0,
            spec_header_capture(lines[m]).unwrap().1,
            m + 1,
        ) == Ok::<HStateV, ParserErrorV>(hstate_after(lines, m + 1).unwrap()),
    decreases j - m,
{
    if m < j {
        lemma_hstate_prefix(lines, m + 1, j);
    }
}

/// A field set after the first `m` lines stays set after the first `j`.
proof fn lemma_tag_persists(lines: Seq<Seq<char>>, m: int, j: int, t: Tag)
    requires
        0 <= m <= j,
        hstate_after(lines, j) is Some,
        tag_set(hstate_after(lines, m).unwrap(), t),
    ensures
        tag_set(hstate_after(lines, j).unwrap(), t),
    decreases j - m,
{
    if m < j {
        lemma_hstate_prefix(lines, m, j);
        lemma_step_monotone(
            hstate_after(lines, m).unwrap(),
            spec_header_capture(lines[m]).unwrap().0,
            spec_header_capture(lines[m]).unwrap().1,
            m + 1,
            t,
        );
        lemma_tag_persists(lines, m + 1, j, t);
    }
}

/// A step failure at line `j+1`, reached through a failure-free prefix, is
/// the result of the whole header pass.
proof fn lemma_err_propagates(lines: Seq<Seq<char>>, m: int, j: int, e: ParserErrorV)
    requires
        0 <= m <= j < lines.len(),
        hstate_after(lines, j) is Some,
        spec_header_capture(lines[j]) is Some,
        step_tag(
            hstate_after(lines, j).unwrap(),
            spec_header_capture(lines[j]).unwrap().0,
            spec_header_capture(lines[j]).unwrap().1,
            j + 1,
        ) == Err::<HStateV, ParserErrorV>(e),
    ensures
        parse_header_lines(lines, m, hstate_after(lines, m).unwrap()) == Err::<HeaderV, ParserErrorV>(e),
    decreases j - m,
{
    lemma_hstate_prefix(lines, m, j);
    if m < j {
        lemma_err_propagates(lines, m + 1, j, e);
    }
}

/// A recognized tag that appears twice always fails as a duplicate header
/// naming that exact tag and the second occurrence's 1-based line number,
/// whatever other tags surround it: if the lines before the second
/// occurrence were consumed without failure and lines `i+1` and `j+1` both
/// carry the recognized tag `t`, the whole header pass reports the
/// duplicate at line `j+1`.
pub proof fn lemma_duplicate_header(lines: Seq<Seq<char>>, i: int, j: int, t: Tag)
    requires
        0 <= i < j < lines.len(),
        hstate_after(lines, j) is Some,
        spec_header_capture(lines[i]) is Some,
        tag_of(spec_header_capture(lines[i]).unwrap().0) == Some(t),
        spec_header_capture(lines[j]) is Some,
        tag_of(spec_header_capture(lines[j]).unwrap().0) == Some(t),
    ensures
        parse_header_lines(lines, 0, init_hstate()) == Err::<HeaderV, ParserErrorV>(
            ParserErrorV::DuplicateHeader { line: j + 1, tag: tag_name(t) },
        ),
{
    lemma_hstate_prefix(lines, i, j);
    lemma_step_sets(
        hstate_after(lines, i).unwrap(),
        spec_header_capture(lines[i]).unwrap().0,
        spec_header_capture(lines[i]).unwrap().1,
        i + 1,
        t,
    );
    lemma_tag_persists(lines, i + 1, j, t);
    lemma_step_duplicate(
        hstate_after(lines, j).unwrap(),
        spec_header_capture(lines[j]).unwrap().0,
        spec_header_capture(lines[j]).unwrap().1,
        j + 1,
        t,
    );
    lemma_err_propagates(lines, 0, j, ParserErrorV::DuplicateHeader { line: j + 1, tag: tag_name(t) });
}

/// Applies one captured tag to the accumulated state.
fn apply_tag(st: &mut HeaderAcc, k: String, v: String, n: u64) -> (r: Result<(), ParserError>)
    ensures
        match r {
            Ok(_) => step_tag(old(st)@, k@, v@, n as int) == Ok::<HStateV, ParserErrorV>(
                final(st)@,
            ),
            Err(e) => step_tag(old(st)@, k@, v@, n as int) == Err::<HStateV, ParserErrorV>(e@),
        },
{
    match recognize_tag(k.as_str()) {
        Some(Tag::Title) => {
            if st.title.is_some() {
                return Err(ParserError::DuplicateHeader { line: n, tag: String::from_str("TITLE") });
            }
            st.title = Some(v);
            assert(st@ =~= HStateV { title: Some(v@), ..old(st)@ });
            Ok(())
        },
        Some(Tag::Artist) => {
            if st.artist.is_some() {
                return Err(
                    ParserError::DuplicateHeader { line: n, tag: String::from_str("ARTIST") },
                );
            }
            st.artist = Some(v);
            assert(st@ =~= HStateV { artist: Some(v@), ..old(st)@ });
            Ok(())
        },
        Some(Tag::Mp3) => {
            if st.audio_path.is_some() {
                return Err(ParserError::DuplicateHeader { line: n, tag: String::from_str("MP3") });
            }
            st.audio_path = Some(v);
            assert(st@ =~= HStateV { audio_path: Some(v@), ..old(st)@ });
            Ok(())
        },
        Some(Tag::Gap) => {
            if st.gap.is_some() {
                return Err(ParserError::DuplicateHeader { line: n, tag: String::from_str("GAP") });
            }
            match parse_decimal(v.as_str()) {
                None => Err(ParserError::ValueError { line: n, field: String::from_str("GAP") }),
                Some(d) => {
                    st.gap = Some(d);
                    assert(st@ =~= HStateV { gap: Some(d), ..old(st)@ });
                    Ok(())
                },
            }
        },
        Some(Tag::Bpm) => {
            if st.bpm.is_some() {
                return Err(ParserError::DuplicateHeader { line: n, tag: String::from_str("BPM") });
            }
            match parse_decimal(v.as_str()) {
                None => Err(ParserError::ValueError { line: n, field: String::from_str("BPM") }),
                Some(d) => {
                    st.bpm = Some(d);
                    assert(st@ =~= HStateV { bpm: Some(d), ..old(st)@ });
                    Ok(())
                },
            }
        },
        Some(Tag::Cover) => {
            if st.cover_path.is_some() {
                return Err(ParserError::DuplicateHeader { line: n, tag: String::from_str("COVER") });
            }
            st.cover_path = Some(v);
            assert(st@ =~= HStateV { cover_path: Some(v@), ..old(st)@ });
            Ok(())
        },
        Some(Tag::Background) => {
            if st.background_path.is_some() {
                return Err(
                    ParserError::DuplicateHeader { line: n, tag: String::from_str("BACKGROUND") },
                );
            }
            st.background_path = Some(v);
            assert(st@ =~= HStateV { background_path: Some(v@), ..old(st)@ });
            Ok(())
        },
        Some(Tag::Video) => {
            if st.video_path.is_some() {
                return Err(ParserError::DuplicateHeader { line: n, tag: String::from_str("VIDEO") });
            }
            st.video_path = Some(v);
            assert(st@ =~= HStateV { video_path: Some(v@), ..old(st)@ });
            Ok(())
        },
        Some(Tag::VideoGap) => {
            if st.video_gap.is_some() {
                return Err(
                    ParserError::DuplicateHeader { line: n, tag: String::from_str("VIDEOGAP") },
                );
            }
            match parse_decimal(v.as_str()) {
                None => Err(
                    ParserError::ValueError { line: n, field: String::from_str("VIDEOGAP") },
                ),
                Some(d) => {
                    st.video_gap = Some(d);
                    assert(st@ =~= HStateV { video_gap: Some(d), ..old(st)@ });
                    Ok(())
                },
            }
        },
        Some(Tag::Genre) => {
            if st.genre.is_some() {
                return Err(ParserError::DuplicateHeader { line: n, tag: String::from_str("GENRE") });
            }
            st.genre = Some(v);
            assert(st@ =~= HStateV { genre: Some(v@), ..old(st)@ });
            Ok(())
        },
        Some(Tag::Edition) => {
            if st.edition.is_some() {
                return Err(
                    ParserError::DuplicateHeader { line: n, tag: String::from_str("EDITION") },
                );
            }
            st.edition = Some(v);
            assert(st@ =~= HStateV { edition: Some(v@), ..old(st)@ });
            Ok(())
        },
        Some(Tag::Language) => {
            if st.language.is_some() {
                return Err(
                    ParserError::DuplicateHeader { line: n, tag: String::from_str("LANGUAGE") },
                );
            }
            st.language = Some(v);
            assert(st@ =~= HStateV { language: Some(v@), ..old(st)@ });
            Ok(())
        },
        Some(Tag::Year) => {
            if st.year.is_some() {
                return Err(ParserError::DuplicateHeader { line: n, tag: String::from_str("YEAR") });
            }
            match parse_u32(v.as_str()) {
                None => Err(ParserError::ValueError { line: n, field: String::from_str("YEAR") }),
                Some(y) => {
                    st.year = Some(y);
                    assert(st@ =~= HStateV { year: Some(y), ..old(st)@ });
                    Ok(())
                },
            }
        },
        Some(Tag::Relative) => {
            if st.relative.is_some() {
                return Err(
                    ParserError::DuplicateHeader { line: n, tag: String::from_str("RELATIVE") },
                );
            }
            if str_eq(v.as_str(), "YES") {
                st.relative = Some(true);
                assert(st@ =~= HStateV { relative: Some(true), ..old(st)@ });
                Ok(())
            } else if str_eq(v.as_str(), "NO") {
                st.relative = Some(false);
                assert(st@ =~= HStateV { relative: Some(false), ..old(st)@ });
                Ok(())
            } else {
                Err(ParserError::ValueError { line: n, field: String::from_str("RELATIVE") })
            }
        },
        None => {
            let ghost prev = st@;
            match find_pair(&st.unknown, k.as_str()) {
                Some(i) => {
                    st.unknown.remove(i);
                    st.unknown.push((k, v));
                    proof {
                        let ghost i_ = find_key(prev.unknown, k@, 0).unwrap();
                        assert(unknown_view(st.unknown@) =~= prev.unknown.remove(i_).push(
                            (k@, v@),
                        ));
                        assert(st@ =~= HStateV {
                            unknown: set_unknown(prev.unknown, k@, v@),
                            ..prev
                        });
                    }
                    Ok(())
                },
                None => {
                    st.unknown.push((k, v));
                    proof {
                        assert(unknown_view(st.unknown@) =~= prev.unknown.push((k@, v@)));
                        assert(st@ =~= HStateV {
                            unknown: set_unknown(prev.unknown, k@, v@),
                            ..prev
                        });
                    }
                    Ok(())
                },
            }
        },
    }
}

/// Builds the header from the accumulated state once the tag block has
/// ended.
fn finish_header_acc(st: HeaderAcc) -> (r: Result<Header, ParserError>)
    ensures
        match r {
            Ok(h) => finish_header(st@) == Ok::<HeaderV, ParserErrorV>(h@),
            Err(e) => finish_header(st@) == Err::<HeaderV, ParserErrorV>(e@),
        },
{
    match (st.title, st.artist, st.bpm, st.audio_path) {
        (Some(title), Some(artist), Some(bpm), Some(audio)) => {
            let h = Header {
                artist,
                title,
                bpm,
                audio_path: Source::Local(audio),
                gap: st.gap,
                cover_path: match st.cover_path {
                    Some(p) => Some(Source::Local(p)),
                    None => None,
                },
                background_path: match st.background_path {
                    Some(p) => Some(Source::Local(p)),
                    None => None,
                },
                video_path: match st.video_path {
                    Some(p) => Some(Source::Local(p)),
                    None => None,
                },
                video_gap: st.video_gap,
                genre: st.genre,
                edition: st.edition,
                language: st.language,
                year: st.year,
                relative: st.relative,
                unknown: st.unknown,
            };
            assert(finish_header(st@) matches Ok(hv) && hv =~= h@);
            Ok(h)
        },
        _ => Err(ParserError::MissingEssential),
    }
}

/// The header pass: consumes the leading `#TAG:value` block of the text,
/// stops at the first line that does not match the pattern, and returns the
/// header or the first failure, exactly as `spec_parse_header` describes.
pub fn parse_txt_header_str(txt_str: &str) -> (r: Result<Header, ParserError>)
    ensures
        match r {
            Ok(h) => spec_parse_header(txt_str@) == Ok::<HeaderV, ParserErrorV>(h@),
            Err(e) => spec_parse_header(txt_str@) == Err::<HeaderV, ParserErrorV>(e@),
        },
{
    let lines = split_lines(txt_str);
    let ghost lv = lines@.map_values(|l: String| l@);
    let mut st = HeaderAcc {
        title: None,
        artist: None,
        bpm: None,
        gap: None,
        audio_path: None,
        cover_path: None,
        background_path: None,
        video_path: None,
        video_gap: None,
        genre: None,
        edition: None,
        language: None,
        year: None,
        relative: None,
        unknown: Vec::new(),
    };
    proof {
        assert(st@ =~= init_hstate());
    }
    let mut i: usize = 0;
    while i < lines.len()
        invariant
            i <= lines.len(),
            lv == lines@.map_values(|l: String| l@),
            lv == spec_lines(txt_str@),
            parse_header_lines(lv, 0, init_hstate()) == parse_header_lines(lv, i as int, st@),
        decreases lines.len() - i,
    {
        assert(lines[i as int]@ == lv[i as int]);
        match header_capture(lines[i].as_str()) {
            None => {
                return finish_header_acc(st);
            },
            Some((k, v)) => {
                let n: u64 = i as u64 + 1;
                let ghost prev = st@;
                match apply_tag(&mut st, k, v, n) {
                    Ok(_) => {
                        proof {
                            assert(parse_header_lines(lv, i as int, prev) == parse_header_lines(
                                lv,
                                i + 1,
                                st@,
                            ));
                        }
                    },
                    Err(e) => {
                        return Err(e);
                    },
                }
            },
        }
        i += 1;
    }
    finish_header_acc(st)
}

/// The line-break marker shape: `-`, a space, then the beat number.
pub open spec fn linebreak_shape(l: Seq<char>) -> bool {
    l.len() >= 2 && l[0] == '-' && l[1] == ' '
}

/// End of the run of digits starting at `i`.
pub open spec fn digit_run_end(l: Seq<char>, i: int) -> int
    decreases l.len() - i,
{
    if i < 0 || i >= l.len() {
        i
    } else if !is_digit(l[i]) {
        i
    } else {
        digit_run_end(l, i + 1)
    }
}

/// Scans the run of digits that starts at `from`.
fn digit_run_scan(l: &str, from: usize) -> (e: usize)
    requires
        from <= l@.len(),
    ensures
        e == digit_run_end(l@, from as int),
        from <= e <= l@.len(),
{
    let len = l.unicode_len();
    let mut e: usize = from;
    while e < len
        invariant
            from <= e <= len,
            len == l@.len(),
            digit_run_end(l@, from as int) == digit_run_end(l@, e as int),
        decreases len - e,
    {
        let c = l.get_char(e);
        let cv = c as u32;
        if cv < 48 || cv > 57 {
            assert(!is_digit(l@[e as int]));
            return e;
        }
        assert(is_digit(l@[e as int]));
        e += 1;
    }
    e
}

/// The note-line shape: a type character, a space, then three space-ended
/// fields, then the note text as the verbatim rest of the line. Yields the
/// three numeric fields and the text.
pub open spec fn note_split(l: Seq<char>) -> Option<(Seq<char>, Seq<char>, Seq<char>, Seq<char>)> {
    if l.len() < 2 || l[1] != ' ' {
        None
    } else {
        match find_from(l, 2, ' ') {
            None => None,
            Some(p1) => match find_from(l, p1 + 1, ' ') {
                None => None,
                Some(p2) => match find_from(l, p2 + 1, ' ') {
                    None => None,
                    Some(p3) => Some(
                        (
                            l.subrange(2, p1),
                            l.subrange(p1 + 1, p2),
                            l.subrange(p2 + 1, p3),
                            l.subrange(p3 + 1, l.len() as int),
                        ),
                    ),
                },
            },
        }
    }
}

/// Splits one line against the note-line shape.
fn note_split_exec(l: &str) -> (r: Option<(String, String, String, String)>)
    ensures
        match r {
            Some(t) => note_split(l@) == Some((t.0@, t.1@, t.2@, t.3@)),
            None => note_split(l@) is None,
        },
{
    let len = l.unicode_len();
    if len < 2 || l.get_char(1) != ' ' {
        return None;
    }
    match find_char(l, 2, ' ') {
        None => None,
        Some(p1) => match find_char(l, p1 + 1, ' ') {
            None => None,
            Some(p2) => match find_char(l, p2 + 1, ' ') {
                None => None,
                Some(p3) => {
                    let f1 = substring(l, 2, p1);
                    let f2 = substring(l, p1 + 1, p2);
                    let f3 = substring(l, p2 + 1, p3);
                    let rest = substring(l, p3 + 1, len);
                    Some((f1, f2, f3, rest))
                },
            },
        },
    }
}

/// The line a song body opens with before any line-break marker: beat 0, no
/// notes.
pub open spec fn init_line() -> LineV {
    LineV { start: 0, rel: None, notes: Seq::empty() }
}

/// The body pass over the lines from `i` on, with the flushed lines `acc`
/// and the open line `cur`: header residue is skipped, an end marker flushes
/// the open line and stops, a line-break marker flushes it and opens a new
/// one at the parsed beat, a note line extends it, and anything else fails.
/// Without an end marker the open line is dropped, as the format requires
/// an explicit `E`.
pub open spec fn parse_body_lines(
    lines: Seq<Seq<char>>,
    i: int,
    acc: Seq<LineV>,
    cur: LineV,
) -> Result<Seq<LineV>, ParserErrorV>
    decreases lines.len() - i,
{
    if i < 0 || i >= lines.len() {
        Ok(acc)
    } else {
        let l = lines[i];
        let n = i + 1;
        if l.len() == 0 {
            Err(ParserErrorV::ParserFailure { line: n })
        } else if l[0] == '#' {
            parse_body_lines(lines, i + 1, acc, cur)
        } else if l[0] == 'E' {
            Ok(acc.push(cur))
        } else if linebreak_shape(l) {
            match spec_parse_i32(l.subrange(2, digit_run_end(l, 2))) {
                None => Err(ParserErrorV::ValueError { line: n, field: "line start"@ }),
                Some(b) => parse_body_lines(
                    lines,
                    i + 1,
                    acc.push(cur),
                    LineV { start: b, rel: None, notes: Seq::empty() },
                ),
            }
        } else {
            match note_split(l) {
                None => Err(ParserErrorV::ParserFailure { line: n }),
                Some(f) => {
                    if l[0] == ':' || l[0] == '*' || l[0] == 'F' {
                        match spec_parse_i32(f.0) {
                            None => Err(ParserErrorV::ValueError { line: n, field: "note start"@ }),
                            Some(ns) => match spec_parse_i32(f.1) {
                                None => Err(
                                    ParserErrorV::ValueError { line: n, field: "note duration"@ },
                                ),
                                Some(nd) => if nd < 0 {
                                    Err(
                                        ParserErrorV::ValueError {
                                            line: n,
                                            field: "note duration"@,
                                        },
                                    )
                                } else {
                                    match spec_parse_i32(f.2) {
                                    None => Err(
                                        ParserErrorV::ValueError { line: n, field: "note pitch"@ },
                                    ),
                                    Some(np) => {
                                        let note = if l[0] == ':' {
                                            NoteV::Regular {
                                                start: ns,
                                                duration: nd,
                                                pitch: np,
                                                text: f.3,
                                            }
                                        } else if l[0] == '*' {
                                            NoteV::Golden {
                                                start: ns,
                                                duration: nd,
                                                pitch: np,
                                                text: f.3,
                                            }
                                        } else {
                                            NoteV::Freestyle {
                                                start: ns,
                                                duration: nd,
                                                pitch: np,
                                                text: f.3,
                                            }
                                        };
                                        parse_body_lines(
                                            lines,
                                            i + 1,
                                            acc,
                                            LineV {
                                                start: cur.start,
                                                rel: cur.rel,
                                                notes: cur.notes.push(note),
                                            },
                                        )
                                    },
                                }
                                },
                            },
                        }
                    } else {
                        Err(ParserErrorV::UnknownNoteType { line: n })
                    }
                },
            }
        }
    }
}

/// What the body pass yields on the full text.
pub open spec fn spec_parse_body(text: Seq<char>) -> Result<Seq<LineV>, ParserErrorV> {
    parse_body_lines(spec_lines(text), 0, Seq::empty(), init_line())
}

/// The body pass: turns the song text after the header block into timed
/// lines, exactly as `spec_parse_body` describes. It runs over the full text
/// and skips header lines itself, so both passes agree on where the header
/// ends.
pub fn parse_txt_lines_str(txt_str: &str) -> (r: Result<Vec<Line>, ParserError>)
    ensures
        match r {
            Ok(v) => spec_parse_body(txt_str@) == Ok::<Seq<LineV>, ParserErrorV>(
                v@.map_values(|l: Line| l@),
            ),
            Err(e) => spec_parse_body(txt_str@) == Err::<Seq<LineV>, ParserErrorV>(e@),
        },
{
    let lines = split_lines(txt_str);
    let ghost lv = lines@.map_values(|l: String| l@);
    let mut lines_vec: Vec<Line> = Vec::new();
    let mut current_line = Line { start: 0, rel: None, notes: Vec::new() };
    proof {
        assert(current_line@ =~= init_line());
        assert(lines_vec@.map_values(|l: Line| l@) =~= Seq::<LineV>::empty());
    }
    let mut i: usize = 0;
    while i < lines.len()
        invariant
            i <= lines.len(),
            lv == lines@.map_values(|l: String| l@),
            lv == spec_lines(txt_str@),
            parse_body_lines(lv, 0, Seq::empty(), init_line()) == parse_body_lines(
                lv,
                i as int,
                lines_vec@.map_values(|l: Line| l@),
                current_line@,
            ),
        decreases lines.len() - i,
    {
        assert(lines[i as int]@ == lv[i as int]);
        let line = &lines[i];
        let llen = line.as_str().unicode_len();
        let n: u64 = i as u64 + 1;
        let ghost acc0 = lines_vec@.map_values(|l: Line| l@);
        let ghost cur0 = current_line@;
        if llen == 0 {
            return Err(ParserError::ParserFailure { line: n });
        }
        let c0 = line.as_str().get_char(0);
        if c0 == '#' {
            // header residue is tolerated and skipped
        } else if c0 == 'E' {
            lines_vec.push(current_line);
            proof {
                assert(lines_vec@.map_values(|l: Line| l@) =~= acc0.push(cur0));
            }
            return Ok(lines_vec);
        } else if llen >= 2 && c0 == '-' && line.as_str().get_char(1) == ' ' {
            assert(linebreak_shape(lv[i as int]));
            let e = digit_run_scan(line.as_str(), 2);
            let ds = substring(line.as_str(), 2, e);
            match parse_i32(ds.as_str()) {
                None => {
                    return Err(
                        ParserError::ValueError { line: n, field: String::from_str("line start") },
                    );
                },
                Some(b) => {
                    lines_vec.push(current_line);
                    current_line = Line { start: b, rel: None, notes: Vec::new() };
                    proof {
                        assert(lines_vec@.map_values(|l: Line| l@) =~= acc0.push(cur0));
                        assert(current_line@ =~= LineV {
                            start: b,
                            rel: None,
                            notes: Seq::empty(),
                        });
                    }
                },
            }
        } else {
            match note_split_exec(line.as_str()) {
                None => {
                    return Err(ParserError::ParserFailure { line: n });
                },
                Some((f1, f2, f3, rest)) => {
                    if c0 == ':' || c0 == '*' || c0 == 'F' {
                        let ns = match parse_i32(f1.as_str()) {
                            Some(x) => x,
                            None => {
                                return Err(
                                    ParserError::ValueError {
                                        line: n,
                                        field: String::from_str("note start"),
                                    },
                                );
                            },
                        };
                        let nd = match parse_i32(f2.as_str()) {
                            Some(x) => x,
                            None => {
                                return Err(
                                    ParserError::ValueError {
                                        line: n,
                                        field: String::from_str("note duration"),
                                    },
                                );
                            },
                        };
                        if nd < 0 {
                            return Err(
                                ParserError::ValueError {
                                    line: n,
                                    field: String::from_str("note duration"),
                                },
                            );
                        }
                        let np = match parse_i32(f3.as_str()) {
                            Some(x) => x,
                            None => {
                                return Err(
                                    ParserError::ValueError {
                                        line: n,
                                        field: String::from_str("note pitch"),
                                    },
                                );
                            },
                        };
                        let note = if c0 == ':' {
                            Note::Regular { start: ns, duration: nd, pitch: np, text: rest }
                        } else if c0 == '*' {
                            Note::Golden { start: ns, duration: nd, pitch: np, text: rest }
                        } else {
                            Note::Freestyle { start: ns, duration: nd, pitch: np, text: rest }
                        };
                        current_line.notes.push(note);
                        proof {
                            assert(current_line@ =~= LineV {
                                start: cur0.start,
                                rel: cur0.rel,
                                notes: cur0.notes.push(note@),
                            });
                        }
                    } else {
                        return Err(ParserError::UnknownNoteType { line: n });
                    }
                },
            }
        }
        i += 1;
    }
    Ok(lines_vec)
}

/// Whether the body pass classifies this line as a note line: not header
/// residue, not an end or line-break marker, shaped as a note and carrying a
/// recognized type character.
pub open spec fn is_note_line(l: Seq<char>) -> bool {
    l.len() > 0 && l[0] != '#' && l[0] != 'E' && !linebreak_shape(l) && note_split(l) is Some && (
    l[0] == ':' || l[0] == '*' || l[0] == 'F')
}

/// How many note lines stand at or after `i`, before the first end marker.
pub open spec fn count_notes_to_end(lines: Seq<Seq<char>>, i: int) -> nat
    decreases lines.len() - i,
{
    if i < 0 || i >= lines.len() {
        0
    } else if lines[i].len() > 0 && lines[i][0] == 'E' {
        0
    } else {
        (if is_note_line(lines[i]) {
            1nat
        } else {
            0
        }) + count_notes_to_end(lines, i + 1)
    }
}

/// Whether an end marker stands at or after `i`.
pub open spec fn has_end_marker(lines: Seq<Seq<char>>, i: int) -> bool
    decreases lines.len() - i,
{
    if i < 0 || i >= lines.len() {
        false
    } else if lines[i].len() > 0 && lines[i][0] == 'E' {
        true
    } else {
        has_end_marker(lines, i + 1)
    }
}

/// The number of notes over all lines of a parsed body.
pub open spec fn total_notes(ls: Seq<LineV>) -> nat
    decreases ls.len(),
{
    if ls.len() == 0 {
        0
    } else {
        total_notes(ls.drop_last()) + ls.last().notes.len()
    }
}

/// The note count of the body pass from `i` on, generalized over the
/// accumulated state.
proof fn lemma_note_count_from(lines: Seq<Seq<char>>, i: int, acc: Seq<LineV>, cur: LineV)
    requires
        0 <= i,
        parse_body_lines(lines, i, acc, cur) is Ok,
        has_end_marker(lines, i),
    ensures
        total_notes(parse_body_lines(lines, i, acc, cur)->Ok_0) == total_notes(acc)
            + cur.notes.len() + count_notes_to_end(lines, i),
    decreases lines.len() - i,
{
    let l = lines[i];
    if l.len() == 0 {
    } else if l[0] == '#' {
        lemma_note_count_from(lines, i + 1, acc, cur);
    } else if l[0] == 'E' {
        assert(acc.push(cur).drop_last() =~= acc);
    } else if linebreak_shape(l) {
        match spec_parse_i32(l.subrange(2, digit_run_end(l, 2))) {
            None => {},
            Some(b) => {
                lemma_note_count_from(
                    lines,
                    i + 1,
                    acc.push(cur),
                    LineV { start: b, rel: None, notes: Seq::empty() },
                );
                assert(acc.push(cur).drop_last() =~= acc);
            },
        }
    } else {
        match note_split(l) {
            None => {},
            Some(f) => {
                if l[0] == ':' || l[0] == '*' || l[0] == 'F' {
                    match (spec_parse_i32(f.0), spec_parse_i32(f.1), spec_parse_i32(f.2)) {
                        (Some(ns), Some(nd), Some(np)) => {
                            if nd >= 0 {
                                let note = if l[0] == ':' {
                                    NoteV::Regular { start: ns, duration: nd, pitch: np, text: f.3 }
                                } else if l[0] == '*' {
                                    NoteV::Golden { start: ns, duration: nd, pitch: np, text: f.3 }
                                } else {
                                    NoteV::Freestyle {
                                        start: ns,
                                        duration: nd,
                                        pitch: np,
                                        text: f.3,
                                    }
                                };
                                lemma_note_count_from(
                                    lines,
                                    i + 1,
                                    acc,
                                    LineV {
                                        start: cur.start,
                                        rel: cur.rel,
                                        notes: cur.notes.push(note),
                                    },
                                );
                            }
                        },
                        _ => {},
                    }
                }
            },
        }
    }
}

/// The note that a note line carries.
pub open spec fn spec_note_of(l: Seq<char>) -> NoteV {
    let f = note_split(l).unwrap();
    let ns = spec_parse_i32(f.0).unwrap();
    let nd = spec_parse_i32(f.1).unwrap();
    let np = spec_parse_i32(f.2).unwrap();
    if l[0] == ':' {
        NoteV::Regular { start: ns, duration: nd, pitch: np, text: f.3 }
    } else if l[0] == '*' {
        NoteV::Golden { start: ns, duration: nd, pitch: np, text: f.3 }
    } else {
        NoteV::Freestyle { start: ns, duration: nd, pitch: np, text: f.3 }
    }
}

/// The notes of the note lines at or after `i`, before the first end
/// marker, in input order.
pub open spec fn notes_to_end(lines: Seq<Seq<char>>, i: int) -> Seq<NoteV>
    decreases lines.len() - i,
{
    if i < 0 || i >= lines.len() {
        Seq::empty()
    } else if lines[i].len() > 0 && lines[i][0] == 'E' {
        Seq::empty()
    } else if is_note_line(lines[i]) {
        seq![spec_note_of(lines[i])] + notes_to_end(lines, i + 1)
    } else {
        notes_to_end(lines, i + 1)
    }
}

/// The notes of a parsed body, over all its lines in order.
pub open spec fn all_notes(ls: Seq<LineV>) -> Seq<NoteV>
    decreases ls.len(),
{
    if ls.len() == 0 {
        Seq::empty()
    } else {
        all_notes(ls.drop_last()) + ls.last().notes
    }
}

/// The note order of the body pass from `i` on, generalized over the
/// accumulated state.
proof fn lemma_note_order_from(lines: Seq<Seq<char>>, i: int, acc: Seq<LineV>, cur: LineV)
    requires
        0 <= i,
        parse_body_lines(lines, i, acc, cur) is Ok,
        has_end_marker(lines, i),
    ensures
        all_notes(parse_body_lines(lines, i, acc, cur)->Ok_0) =~= all_notes(acc) + cur.notes
            + notes_to_end(lines, i),
    decreases lines.len() - i,
{
    let l = lines[i];
    if l.len() == 0 {
    } else if l[0] == '#' {
        lemma_note_order_from(lines, i + 1, acc, cur);
    } else if l[0] == 'E' {
        assert(acc.push(cur).drop_last() =~= acc);
        assert(all_notes(acc.push(cur)) =~= all_notes(acc) + cur.notes + Seq::<NoteV>::empty());
    } else if linebreak_shape(l) {
        match spec_parse_i32(l.subrange(2, digit_run_end(l, 2))) {
            None => {},
            Some(b) => {
                let fresh = LineV { start: b, rel: None, notes: Seq::empty() };
                lemma_note_order_from(lines, i + 1, acc.push(cur), fresh);
                assert(acc.push(cur).drop_last() =~= acc);
                assert(all_notes(acc.push(cur)) + fresh.notes + notes_to_end(lines, i + 1)
                    =~= all_notes(acc) + cur.notes + notes_to_end(lines, i));
            },
        }
    } else {
        match note_split(l) {
            None => {},
            Some(f) => {
                if l[0] == ':' || l[0] == '*' || l[0] == 'F' {
                    match (spec_parse_i32(f.0), spec_parse_i32(f.1), spec_parse_i32(f.2)) {
                        (Some(ns), Some(nd), Some(np)) => {
                            if nd >= 0 {
                                let note = spec_note_of(l);
                                let cur2 = LineV {
                                    start: cur.start,
                                    rel: cur.rel,
                                    notes: cur.notes.push(note),
                                };
                                lemma_note_order_from(lines, i + 1, acc, cur2);
                                assert(all_notes(acc) + cur2.notes + notes_to_end(lines, i + 1)
                                    =~= all_notes(acc) + cur.notes + notes_to_end(lines, i));
                            }
                        },
                        _ => {},
                    }
                }
            },
        }
    }
}

/// For a body ended by an explicit end marker, the concatenation of the
/// parsed lines' notes equals the note lines before the marker, parsed in
/// input order: none dropped, none duplicated, order preserved.
pub proof fn lemma_note_order(text: Seq<char>)
    requires
        spec_parse_body(text) is Ok,
        has_end_marker(spec_lines(text), 0),
    ensures
        all_notes(spec_parse_body(text)->Ok_0) == notes_to_end(spec_lines(text), 0),
{
    lemma_note_order_from(spec_lines(text), 0, Seq::empty(), init_line());
    assert(all_notes(spec_parse_body(text)->Ok_0) =~= notes_to_end(spec_lines(text), 0));
}

/// The note sequence length of a successfully parsed body equals the number
/// of note lines before the end marker; `lemma_note_order` pins which notes
/// and in what order.
pub proof fn lemma_note_count(text: Seq<char>)
    requires
        spec_parse_body(text) is Ok,
        has_end_marker(spec_lines(text), 0),
    ensures
        total_notes(spec_parse_body(text)->Ok_0) == count_notes_to_end(spec_lines(text), 0),
{
    lemma_note_count_from(spec_lines(text), 0, Seq::empty(), init_line());
}

} // verus!
