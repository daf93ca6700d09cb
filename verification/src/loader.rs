//! The decoding pipeline around the two parsers: byte-to-text decoding with
//! encoding auto-detection, document assembly, and the canonicalization
//! decision for header file references. The filesystem itself is the
//! caller's: reading the file and resolving a path happen outside, and the
//! outcomes are handed in as plain values.

use vstd::prelude::*;
use crate::parser::{
    ParserError, ParserErrorV, parse_txt_header_str, parse_txt_lines_str, spec_parse_body,
    spec_parse_header,
};
use crate::structs::{
    Header, HeaderV, Source, SourceV, TXTSong, TXTSongV, opt_source_view, opt_str_view,
};
use crate::text::{
    find_char, find_from, lemma_find_from_range, lower_seq, eq_lower, str_eq, substring,
};

verus! {

/// A failure of the decode-and-parse pipeline, or of the canonicalization
/// that follows it.
#[derive(Clone, Debug, PartialEq, Eq)]
pub enum SongError {
    IOError,
    EncodingDetectionError,
    DecodingError(String),
    CanonicalizationError(String),
    HeaderParsingError(ParserError),
    LinesParsingError(ParserError),
}

/// Mathematical model of a `SongError`.
#[verifier::ext_equal]
pub enum SongErrorV {
    IOError,
    EncodingDetectionError,
    DecodingError(Seq<char>),
    CanonicalizationError(Seq<char>),
    HeaderParsingError(ParserErrorV),
    LinesParsingError(ParserErrorV),
}

impl View for SongError {
    type V = SongErrorV;

    open spec fn view(&self) -> SongErrorV {
        match self {
            SongError::IOError => SongErrorV::IOError,
            SongError::EncodingDetectionError => SongErrorV::EncodingDetectionError,
            SongError::DecodingError(m) => SongErrorV::DecodingError(m@),
            SongError::CanonicalizationError(p) => SongErrorV::CanonicalizationError(p@),
            SongError::HeaderParsingError(e) => SongErrorV::HeaderParsingError(e@),
            SongError::LinesParsingError(e) => SongErrorV::LinesParsingError(e@),
        }
    }
}

/// Whether the WHATWG label registry of the `encoding` crate knows `label`.
pub uninterp spec fn label_known(label: Seq<char>) -> bool;

/// The text that the decoder registered under `label` yields from `bytes`
/// when invalid sequences are dropped.
pub uninterp spec fn decoded_text(label: Seq<char>, bytes: Seq<u8>) -> Seq<char>;

/// The charset name that statistical detection guesses for `bytes`.
pub uninterp spec fn detected_charset(bytes: Seq<u8>) -> Seq<char>;

/// A buffer on which statistical detection is not safe to run: it holds an
/// escape byte but no high-bit byte (other than `0xA0`), so the detector
/// ends in its escape-sequence state, whose close can fail. The guess is
/// then owed by an escape-encoding prober that may never conclude.
pub open spec fn esc_detection_risk(bytes: Seq<u8>) -> bool {
    (exists|i: int| 0 <= i < bytes.len() && bytes[i] == 0x1b) && (forall|i: int|
        0 <= i < bytes.len() ==> !(#[trigger] bytes[i] >= 0x80 && bytes[i] != 0xa0))
}

/// The WHATWG label that the detector's charset name maps to: the name
/// unchanged, except for three renames.
pub open spec fn charset_label(name: Seq<char>) -> Seq<char> {
    if name == "CP932"@ {
        "windows-31j"@
    } else if name == "CP949"@ {
        "windows-949"@
    } else if name == "MacCyrillic"@ {
        "x-mac-cyrillic"@
    } else {
        name
    }
}

/// Relies on `encoding::label::encoding_from_whatwg_label` and
/// `encoding::types::Encoding::decode`: whether a decoder exists depends on
/// the label alone, and `"ascii"` is in the registry. With
/// `DecoderTrap::Ignore` the decoder drops invalid sequences instead of
/// failing — its only error return is from a trap that refuses to continue,
/// and the ignore trap always continues — and the decoded text is a function
/// of the label and the bytes alone.
#[verifier::external_body]
fn decode_with_label(label: &str, bytes: &Vec<u8>) -> (r: Option<String>)
    ensures
        (r is Some) == label_known(label@),
        r matches Some(t) ==> t@ == decoded_text(label@, bytes@),
        label@ == "ascii"@ ==> r is Some,
{
    match encoding::label::encoding_from_whatwg_label(label) {
        None => None,
        Some(coder) => Some(
            coder.decode(bytes, encoding::DecoderTrap::Ignore).unwrap_or(String::new()),
        ),
    }
}

/// Relies on `chardet::detect`: the statistical charset guess is a pure
/// function of the bytes (a fixed prober list, nothing from the
/// environment). The confidence and language parts of its result are not
/// used. The detector's close step cannot handle a buffer that left it in
/// its escape-sequence state without a concluded guess — an escape byte
/// with no high-bit byte — so such buffers are excluded here and the caller
/// routes around them.
#[verifier::external_body]
fn detect_charset(bytes: &Vec<u8>) -> (r: String)
    requires
        !esc_detection_risk(bytes@),
    ensures
        r@ == detected_charset(bytes@),
{
    chardet::detect(bytes).0
}

/// Relies on `chardet::charset2encoding`: a fixed six-line table from
/// detector charset names to WHATWG encoding labels, the identity except
/// for three renames, which `charset_label` states exactly.
#[verifier::external_body]
fn charset_to_label(name: &String) -> (r: String)
    ensures
        r@ == charset_label(name@),
{
    String::from(chardet::charset2encoding(name))
}

/// Whether running statistical detection on this buffer is unsafe.
fn detection_risky(bytes: &Vec<u8>) -> (r: bool)
    ensures
        r == esc_detection_risk(bytes@),
{
    let mut has_esc = false;
    let mut has_high = false;
    let mut i: usize = 0;
    while i < bytes.len()
        invariant
            i <= bytes@.len(),
            has_esc == (exists|k: int| 0 <= k < i && bytes@[k] == 0x1b),
            has_high == (exists|k: int| 0 <= k < i && #[trigger] bytes@[k] >= 0x80 && bytes@[k]
                != 0xa0),
        decreases bytes@.len() - i,
    {
        let b = bytes[i];
        if b == 0x1b {
            has_esc = true;
        }
        if b >= 0x80 && b != 0xa0 {
            has_high = true;
        }
        i += 1;
    }
    if has_esc && !has_high {
        assert forall|k: int| 0 <= k < bytes@.len() implies !(#[trigger] bytes@[k] >= 0x80
            && bytes@[k] != 0xa0) by {}
        true
    } else {
        false
    }
}

/// A character allowed in a declared encoding label.
pub open spec fn is_label_char(c: char) -> bool {
    (65 <= c as u32 <= 90) || (97 <= c as u32 <= 122) || (48 <= c as u32 <= 57) || c == '-' || c
        == '_' || c == ':' || c == '.'
}

/// ASCII whitespace, as allowed between a declared label and its line end.
pub open spec fn is_space_char(c: char) -> bool {
    c == ' ' || c == '\t' || c == '\r' || c == '\n' || c == '\u{0B}' || c == '\u{0C}'
}

/// End of the run of label characters starting at `i`.
pub open spec fn label_run_end(l: Seq<char>, i: int) -> int
    decreases l.len() - i,
{
    if i < 0 || i >= l.len() {
        i
    } else if !is_label_char(l[i]) {
        i
    } else {
        label_run_end(l, i + 1)
    }
}

/// An in-file encoding declaration: the line reads `#ENCODING:`, then at
/// least one label character, then only whitespace. Yields the label.
pub open spec fn decl_label(l: Seq<char>) -> Option<Seq<char>> {
    if l.len() < 10 || l.subrange(0, 10) != "#ENCODING:"@ {
        None
    } else {
        let e = label_run_end(l, 10);
        if e == 10 {
            None
        } else if forall|j: int| e <= j < l.len() ==> is_space_char(#[trigger] l[j]) {
            Some(l.subrange(10, e))
        } else {
            None
        }
    }
}

/// The label of the first declaring line at or after `pos`. Only a line
/// ended by a newline can declare an encoding; an unterminated final line
/// cannot.
pub open spec fn find_encoding_label_from(s: Seq<char>, pos: int) -> Option<Seq<char>>
    decreases s.len() - pos,
    via find_encoding_label_from_decreases
{
    if pos < 0 || pos >= s.len() {
        None
    } else {
        match find_from(s, pos, '\n') {
            None => None,
            Some(i) => match decl_label(s.subrange(pos, i)) {
                Some(lab) => Some(lab),
                None => find_encoding_label_from(s, i + 1),
            },
        }
    }
}

#[via_fn]
proof fn find_encoding_label_from_decreases(s: Seq<char>, pos: int) {
    lemma_find_from_range(s, pos, '\n');
}

/// The encoding label declared in the text, if any line declares one.
pub open spec fn find_encoding_label(s: Seq<char>) -> Option<Seq<char>> {
    find_encoding_label_from(s, 0)
}

/// Scans the run of label characters that starts at `from`.
fn label_run_scan(l: &str, from: usize) -> (e: usize)
    requires
        from <= l@.len(),
    ensures
        e == label_run_end(l@, from as int),
        from <= e <= l@.len(),
{
    let len = l.unicode_len();
    let mut e: usize = from;
    while e < len
        invariant
            from <= e <= len,
            len == l@.len(),
            label_run_end(l@, from as int) == label_run_end(l@, e as int),
        decreases len - e,
    {
        let c = l.get_char(e);
        let cv = c as u32;
        if !((65 <= cv && cv <= 90) || (97 <= cv && cv <= 122) || (48 <= cv && cv <= 57) || c
            == '-' || c == '_' || c == ':' || c == '.') {
            assert(!is_label_char(l@[e as int]));
            return e;
        }
        assert(is_label_char(l@[e as int]));
        e += 1;
    }
    e
}

/// Reads a declaring line's label, if the line is one.
fn decl_label_exec(l: &str) -> (r: Option<String>)
    ensures
        match r {
            Some(lab) => decl_label(l@) == Some(lab@),
            None => decl_label(l@) is None,
        },
{
    let len = l.unicode_len();
    if len < 10 {
        return None;
    }
    let head = substring(l, 0, 10);
    if !str_eq(head.as_str(), "#ENCODING:") {
        return None;
    }
    let e = label_run_scan(l, 10);
    if e == 10 {
        return None;
    }
    let mut j = e;
    while j < len
        invariant
            e <= j <= len,
            len == l@.len(),
            10 < e == label_run_end(l@, 10),
            l@.subrange(0, 10) == "#ENCODING:"@,
            forall|k: int| e <= k < j ==> is_space_char(#[trigger] l@[k]),
        decreases len - j,
    {
        let c = l.get_char(j);
        if !(c == ' ' || c == '\t' || c == '\r' || c == '\n' || c == '\u{0B}' || c == '\u{0C}') {
            assert(!is_space_char(l@[j as int]));
            assert(!(forall|k: int| e <= k < l@.len() ==> is_space_char(#[trigger] l@[k]))) by {
                assert(e <= j < l@.len() && !is_space_char(l@[j as int]));
            }
            return None;
        }
        j += 1;
    }
    Some(substring(l, 10, e))
}

/// Finds the first encoding declaration in the text.
fn find_encoding_label_exec(s: &str) -> (r: Option<String>)
    ensures
        match r {
            Some(lab) => find_encoding_label(s@) == Some(lab@),
            None => find_encoding_label(s@) is None,
        },
{
    let len = s.unicode_len();
    let mut pos: usize = 0;
    while pos < len
        invariant
            pos <= len,
            len == s@.len(),
            find_encoding_label_from(s@, 0) == find_encoding_label_from(s@, pos as int),
        decreases len - pos,
    {
        match find_char(s, pos, '\n') {
            None => {
                return None;
            },
            Some(i) => {
                let line = substring(s, pos, i);
                match decl_label_exec(line.as_str()) {
                    Some(lab) => {
                        return Some(lab);
                    },
                    None => {
                        pos = i + 1;
                    },
                }
            },
        }
    }
    None
}

/// Whether a label names a UTF variant, whose decoded text may begin with
/// a byte-order mark that must be stripped. These are the registry labels
/// that resolve to the UTF encodings.
pub open spec fn is_utf_label(label: Seq<char>) -> bool {
    let l = lower_seq(label);
    l == "utf-8"@ || l == "utf8"@ || l == "unicode-1-1-utf-8"@ || l == "utf-16"@ || l
        == "utf-16le"@ || l == "utf-16be"@
}

/// Whether a label names a UTF variant.
fn is_utf_label_exec(label: &str) -> (r: bool)
    ensures
        r == is_utf_label(label@),
{
    eq_lower(label, "utf-8") || eq_lower(label, "utf8") || eq_lower(label, "unicode-1-1-utf-8")
        || eq_lower(label, "utf-16") || eq_lower(label, "utf-16le") || eq_lower(label, "utf-16be")
}

/// What decoding under a resolved label yields: an unknown label is a
/// detection failure; otherwise the decoder's text, with a leading
/// byte-order mark stripped when the label names a UTF variant.
pub open spec fn spec_decode_with(label: Seq<char>, bytes: Seq<u8>) -> Result<
    Seq<char>,
    SongErrorV,
> {
    if !label_known(label) {
        Err(SongErrorV::EncodingDetectionError)
    } else {
        let t = decoded_text(label, bytes);
        if t.len() > 0 && is_utf_label(label) && t[0] == '\u{feff}' {
            Ok(t.drop_first())
        } else {
            Ok(t)
        }
    }
}

/// What decoding the raw bytes yields: the label comes from the in-file
/// declaration, or failing one, from statistical detection; a buffer on
/// which detection is unsafe is a detection failure.
pub open spec fn spec_decode(bytes: Seq<u8>) -> Result<Seq<char>, SongErrorV> {
    let ascii = decoded_text("ascii"@, bytes);
    match find_encoding_label(ascii) {
        Some(lab) => spec_decode_with(lab, bytes),
        None => if esc_detection_risk(bytes) {
            Err(SongErrorV::EncodingDetectionError)
        } else {
            spec_decode_with(charset_label(detected_charset(bytes)), bytes)
        },
    }
}

/// Decodes the bytes under one resolved label.
fn decode_resolved(label: &String, bytes: &Vec<u8>) -> (r: Result<String, SongError>)
    ensures
        match r {
            Ok(t) => spec_decode_with(label@, bytes@) == Ok::<Seq<char>, SongErrorV>(t@),
            Err(e) => spec_decode_with(label@, bytes@) == Err::<Seq<char>, SongErrorV>(e@),
        },
{
    match decode_with_label(label.as_str(), bytes) {
        None => Err(SongError::EncodingDetectionError),
        Some(t) => {
            let tlen = t.as_str().unicode_len();
            if tlen > 0 && is_utf_label_exec(label.as_str()) && t.as_str().get_char(0)
                == '\u{feff}' {
                let stripped = substring(t.as_str(), 1, tlen);
                proof {
                    assert(t@.drop_first() =~= t@.subrange(1, tlen as int));
                }
                Ok(stripped)
            } else {
                Ok(t)
            }
        },
    }
}

/// Decodes a raw song file into text, as `spec_decode` describes.
pub fn decode_txt_bytes(bytes: &Vec<u8>) -> (r: Result<String, SongError>)
    ensures
        match r {
            Ok(t) => spec_decode(bytes@) == Ok::<Seq<char>, SongErrorV>(t@),
            Err(e) => spec_decode(bytes@) == Err::<Seq<char>, SongErrorV>(e@),
        },
{
    let ascii = match decode_with_label("ascii", bytes) {
        Some(t) => t,
        None => {
            proof {
                assert(false);
            }
            return Err(SongError::EncodingDetectionError);
        },
    };
    match find_encoding_label_exec(ascii.as_str()) {
        Some(lab) => decode_resolved(&lab, bytes),
        None => {
            if detection_risky(bytes) {
                return Err(SongError::EncodingDetectionError);
            }
            let cs = detect_charset(bytes);
            let lab = charset_to_label(&cs);
            decode_resolved(&lab, bytes)
        },
    }
}

/// What assembling a raw song file yields: the decoded text is parsed by the
/// header pass and the body pass, each failure wrapped with its phase, and
/// the two results form the document.
pub open spec fn spec_assemble(bytes: Seq<u8>) -> Result<TXTSongV, SongErrorV> {
    match spec_decode(bytes) {
        Err(e) => Err(e),
        Ok(t) => match spec_parse_header(t) {
            Err(e) => Err(SongErrorV::HeaderParsingError(e)),
            Ok(h) => match spec_parse_body(t) {
                Err(e) => Err(SongErrorV::LinesParsingError(e)),
                Ok(ls) => Ok(TXTSongV { header: h, lines: ls }),
            },
        },
    }
}

/// Decodes and parses a raw song file into a document, as `spec_assemble`
/// describes. Canonicalization of the header's file references is left to
/// the caller, who owns the filesystem.
pub fn assemble_txt_song(bytes: &Vec<u8>) -> (r: Result<TXTSong, SongError>)
    ensures
        match r {
            Ok(song) => spec_assemble(bytes@) == Ok::<TXTSongV, SongErrorV>(song@),
            Err(e) => spec_assemble(bytes@) == Err::<TXTSongV, SongErrorV>(e@),
        },
{
    let txt = match decode_txt_bytes(bytes) {
        Ok(t) => t,
        Err(e) => {
            return Err(e);
        },
    };
    let header = match parse_txt_header_str(txt.as_str()) {
        Ok(h) => h,
        Err(e) => {
            return Err(SongError::HeaderParsingError(e));
        },
    };
    let lines = match parse_txt_lines_str(txt.as_str()) {
        Ok(ls) => ls,
        Err(e) => {
            return Err(SongError::LinesParsingError(e));
        },
    };
    Ok(TXTSong { header, lines })
}

/// Assembly is deterministic: equal byte sequences yield equal results. With
/// the contract of `assemble_txt_song`, two parses of the same input always
/// agree, which is the decode-of-decode form of the round-trip property.
pub proof fn lemma_assemble_deterministic(b1: Seq<u8>, b2: Seq<u8>)
    requires
        b1 == b2,
    ensures
        spec_assemble(b1) == spec_assemble(b2),
{
}

/// A reference joined onto the directory that holds the song file, the way
/// `PathBuf::push` joins Unix paths: an absolute reference replaces the
/// base.
pub open spec fn spec_join_path(base: Seq<char>, rel: Seq<char>) -> Seq<char> {
    if rel.len() > 0 && rel[0] == '/' {
        rel
    } else if base.len() == 0 {
        rel
    } else if base.last() == '/' {
        base + rel
    } else {
        base + seq!['/'] + rel
    }
}

/// Joins a file reference onto a base directory.
pub fn join_path(base: &str, rel: &str) -> (r: String)
    ensures
        r@ == spec_join_path(base@, rel@),
{
    let rlen = rel.unicode_len();
    if rlen > 0 && rel.get_char(0) == '/' {
        return String::from_str(rel);
    }
    let blen = base.unicode_len();
    if blen == 0 {
        return String::from_str(rel);
    }
    let mut out = String::from_str(base);
    if base.get_char(blen - 1) != '/' {
        out.append("/");
        proof {
            reveal_strlit("/");
            assert(out@ =~= base@ + seq!['/']);
        }
    }
    out.append(rel);
    proof {
        if base@.last() != '/' {
            assert(out@ =~= base@ + seq!['/'] + rel@);
        }
    }
    out
}

/// The canonicalization decision for one optional reference: absent stays
/// absent, a remote reference passes through unchanged, and a local
/// reference becomes the resolved absolute path, or a canonicalization
/// failure naming the joined path when the filesystem could not resolve it.
pub open spec fn spec_canonicalize(
    p: Option<SourceV>,
    base: Seq<char>,
    resolved: Option<Seq<char>>,
) -> Result<Option<SourceV>, SongErrorV> {
    match p {
        None => Ok(None),
        Some(SourceV::Remote(x)) => Ok(Some(SourceV::Remote(x))),
        Some(SourceV::Local(x)) => match resolved {
            Some(abs) => Ok(Some(SourceV::Local(abs))),
            None => Err(SongErrorV::CanonicalizationError(spec_join_path(base, x))),
        },
    }
}

/// Decides what one optional header reference becomes under
/// canonicalization. The caller resolves `join_path(base_path, x)` against
/// the filesystem for a local reference `x` and passes the outcome as
/// `resolved`, `None` when resolution failed; `resolved` is ignored for an
/// absent or remote reference.
pub fn canonicalize_path(path: &Option<Source>, base_path: &str, resolved: Option<String>) -> (r:
    Result<Option<Source>, SongError>)
    ensures
        ({
            let rv = match r {
                Ok(o) => Ok::<Option<SourceV>, SongErrorV>(opt_source_view(o)),
                Err(e) => Err::<Option<SourceV>, SongErrorV>(e@),
            };
            rv == spec_canonicalize(
                opt_source_view(*path),
                base_path@,
                match resolved {
                    Some(s) => Some(s@),
                    None => None,
                },
            )
        }),
{
    match path {
        None => Ok(None),
        Some(Source::Remote(x)) => Ok(Some(Source::Remote(x.clone()))),
        Some(Source::Local(x)) => match resolved {
            Some(abs) => Ok(Some(Source::Local(abs))),
            None => Err(SongError::CanonicalizationError(join_path(base_path, x.as_str()))),
        },
    }
}

/// The canonicalization of a whole header: the mandatory audio reference
/// and the three optional ones are decided in order — audio, video, cover,
/// background — and the first failure aborts the whole header.
pub open spec fn spec_canonicalize_header(
    h: HeaderV,
    base: Seq<char>,
    ra: Option<Seq<char>>,
    rv: Option<Seq<char>>,
    rc: Option<Seq<char>>,
    rb: Option<Seq<char>>,
) -> Result<HeaderV, SongErrorV> {
    match spec_canonicalize(Some(h.audio_path), base, ra) {
        Err(e) => Err(e),
        Ok(a) => match spec_canonicalize(h.video_path, base, rv) {
            Err(e) => Err(e),
            Ok(v) => match spec_canonicalize(h.cover_path, base, rc) {
                Err(e) => Err(e),
                Ok(c) => match spec_canonicalize(h.background_path, base, rb) {
                    Err(e) => Err(e),
                    Ok(b) => Ok(
                        HeaderV {
                            audio_path: a.unwrap(),
                            video_path: v,
                            cover_path: c,
                            background_path: b,
                            ..h
                        },
                    ),
                },
            },
        },
    }
}

/// Canonicalizes every file reference of a header, as
/// `spec_canonicalize_header` describes. The caller resolves each local
/// reference's joined path against the filesystem and passes the outcomes
/// as `resolved_audio` through `resolved_background`, `None` where
/// resolution failed or the reference is absent or remote.
pub fn canonicalize_header(
    header: Header,
    base_path: &str,
    resolved_audio: Option<String>,
    resolved_video: Option<String>,
    resolved_cover: Option<String>,
    resolved_background: Option<String>,
) -> (r: Result<Header, SongError>)
    ensures
        ({
            let sr = spec_canonicalize_header(
                header@,
                base_path@,
                opt_str_view(resolved_audio),
                opt_str_view(resolved_video),
                opt_str_view(resolved_cover),
                opt_str_view(resolved_background),
            );
            match r {
                Ok(h2) => sr == Ok::<HeaderV, SongErrorV>(h2@),
                Err(e) => sr == Err::<HeaderV, SongErrorV>(e@),
            }
        }),
{
    let Header {
        artist,
        title,
        bpm,
        audio_path,
        gap,
        cover_path,
        background_path,
        video_path,
        video_gap,
        genre,
        edition,
        language,
        year,
        relative,
        unknown,
    } = header;
    let audio = match canonicalize_path(&Some(audio_path), base_path, resolved_audio) {
        Err(e) => {
            return Err(e);
        },
        Ok(o) => match o {
            Some(s) => s,
            None => {
                proof {
                    assert(false);
                }
                return Err(SongError::IOError);
            },
        },
    };
    let video = match canonicalize_path(&video_path, base_path, resolved_video) {
        Err(e) => {
            return Err(e);
        },
        Ok(o) => o,
    };
    let cover = match canonicalize_path(&cover_path, base_path, resolved_cover) {
        Err(e) => {
            return Err(e);
        },
        Ok(o) => o,
    };
    let background = match canonicalize_path(&background_path, base_path, resolved_background) {
        Err(e) => {
            return Err(e);
        },
        Ok(o) => o,
    };
    let h2 = Header {
        artist,
        title,
        bpm,
        audio_path: audio,
        gap,
        cover_path: cover,
        background_path: background,
        video_path: video,
        video_gap,
        genre,
        edition,
        language,
        year,
        relative,
        unknown,
    };
    proof {
        assert(spec_canonicalize_header(
            header@,
            base_path@,
            opt_str_view(resolved_audio),
            opt_str_view(resolved_video),
            opt_str_view(resolved_cover),
            opt_str_view(resolved_background),
        ) matches Ok(hv) && hv =~= h2@);
    }
    Ok(h2)
}

} // verus!
