use ultrastar_txt::numbers::{parse_decimal, parse_i32, parse_u32};
use ultrastar_txt::{
    Decimal, Line, Note, NoteType, ParserError, Source, parse_txt_header_str, parse_txt_lines_str,
};

fn dec(neg: bool, mantissa: u64, scale: usize) -> Decimal {
    Decimal { neg, mantissa, scale }
}

#[test]
fn header_full_block_parses() {
    let txt = "#TITLE:Foo\n#ARTIST:Bar\n#BPM:120\n#GAP:0\n#MP3:song.mp3\n: 0 4 0 Hi\nE\n";
    let h = parse_txt_header_str(txt).expect("header should parse");
    assert_eq!(h.title, "Foo");
    assert_eq!(h.artist, "Bar");
    assert_eq!(h.bpm, dec(false, 120, 0));
    assert_eq!(h.gap, Some(dec(false, 0, 0)));
    assert_eq!(h.audio_path, Source::Local("song.mp3".to_string()));
    assert_eq!(h.cover_path, None);
    assert_eq!(h.year, None);
    assert_eq!(h.relative, None);
}

#[test]
fn duplicate_tag_names_tag_and_line() {
    let txt = "#TITLE:a\n#ARTIST:b\n#TITLE:c\n";
    let e = parse_txt_header_str(txt).unwrap_err();
    assert_eq!(e, ParserError::DuplicateHeader { line: 3, tag: "TITLE".to_string() });
}

#[test]
fn duplicate_tag_between_other_tags() {
    let txt = "#GAP:1\n#BPM:2\n#ARTIST:x\n#BPM:9\n";
    let e = parse_txt_header_str(txt).unwrap_err();
    assert_eq!(e, ParserError::DuplicateHeader { line: 4, tag: "BPM".to_string() });
}

#[test]
fn missing_bpm_is_missing_essential() {
    let txt = "#TITLE:t\n#ARTIST:a\n#GAP:0\n#MP3:x.mp3\nE\n";
    let e = parse_txt_header_str(txt).unwrap_err();
    assert_eq!(e, ParserError::MissingEssential);
}

#[test]
fn empty_text_is_missing_essential() {
    let e = parse_txt_header_str("").unwrap_err();
    assert_eq!(e, ParserError::MissingEssential);
}

#[test]
fn missing_gap_is_not_essential() {
    let txt = "#TITLE:t\n#ARTIST:a\n#BPM:100\n#MP3:x.mp3\nE\n";
    let h = parse_txt_header_str(txt).expect("gap is optional");
    assert_eq!(h.gap, None);
    assert_eq!(h.title, "t");
}

#[test]
fn gap_with_comma_decimal_parses() {
    let txt = "#TITLE:t\n#ARTIST:a\n#BPM:100\n#GAP:12,5\n#MP3:x\n";
    let h = parse_txt_header_str(txt).expect("header should parse");
    assert_eq!(h.gap, Some(dec(false, 125, 1)));
}

#[test]
fn bad_bpm_is_value_error() {
    let txt = "#TITLE:t\n#ARTIST:a\n#BPM:abc\n";
    let e = parse_txt_header_str(txt).unwrap_err();
    assert_eq!(e, ParserError::ValueError { line: 3, field: "BPM".to_string() });
}

#[test]
fn bad_year_is_value_error() {
    let txt = "#YEAR:soon\n";
    let e = parse_txt_header_str(txt).unwrap_err();
    assert_eq!(e, ParserError::ValueError { line: 1, field: "YEAR".to_string() });
}

#[test]
fn year_parses_as_integer() {
    let txt = "#TITLE:t\n#ARTIST:a\n#BPM:1\n#GAP:0\n#MP3:x\n#YEAR:1999\n";
    let h = parse_txt_header_str(txt).unwrap();
    assert_eq!(h.year, Some(1999));
}

#[test]
fn relative_yes_and_no() {
    let yes = "#TITLE:t\n#ARTIST:a\n#BPM:1\n#GAP:0\n#MP3:x\n#RELATIVE:YES\n";
    assert_eq!(parse_txt_header_str(yes).unwrap().relative, Some(true));
    let no = "#TITLE:t\n#ARTIST:a\n#BPM:1\n#GAP:0\n#MP3:x\n#RELATIVE:NO\n";
    assert_eq!(parse_txt_header_str(no).unwrap().relative, Some(false));
}

#[test]
fn relative_other_value_is_value_error() {
    let e = parse_txt_header_str("#RELATIVE:MAYBE\n").unwrap_err();
    assert_eq!(e, ParserError::ValueError { line: 1, field: "RELATIVE".to_string() });
}

#[test]
fn unknown_tag_is_recorded_not_fatal() {
    let txt = "#TITLE:t\n#FOO:bar\n#ARTIST:a\n#BPM:1\n#GAP:0\n#MP3:x\n";
    let h = parse_txt_header_str(txt).unwrap();
    assert_eq!(h.unknown, vec![("FOO".to_string(), "bar".to_string())]);
}

#[test]
fn repeated_unknown_tag_keeps_last_value() {
    let txt = "#TITLE:t\n#FOO:a\n#FOO:b\n#ARTIST:a\n#BPM:1\n#GAP:0\n#MP3:x\n";
    let h = parse_txt_header_str(txt).unwrap();
    assert_eq!(h.unknown, vec![("FOO".to_string(), "b".to_string())]);
}

#[test]
fn header_stops_at_first_non_header_line() {
    // ARTIST after the break is never seen, so the header stays incomplete
    let txt = "#TITLE:t\n#BPM:1\n#GAP:0\n#MP3:x\n: 0 1 2 a\n#ARTIST:late\n";
    let e = parse_txt_header_str(txt).unwrap_err();
    assert_eq!(e, ParserError::MissingEssential);
}

#[test]
fn optional_fields_parse() {
    let txt = "#TITLE:t\n#ARTIST:a\n#BPM:1\n#GAP:0\n#MP3:x\n#COVER:c.jpg\n#BACKGROUND:b.jpg\n#VIDEO:v.mp4\n#VIDEOGAP:2,5\n#GENRE:Pop\n#EDITION:First\n#LANGUAGE:English\n";
    let h = parse_txt_header_str(txt).unwrap();
    assert_eq!(h.cover_path, Some(Source::Local("c.jpg".to_string())));
    assert_eq!(h.background_path, Some(Source::Local("b.jpg".to_string())));
    assert_eq!(h.video_path, Some(Source::Local("v.mp4".to_string())));
    assert_eq!(h.video_gap, Some(dec(false, 25, 1)));
    assert_eq!(h.genre, Some("Pop".to_string()));
    assert_eq!(h.edition, Some("First".to_string()));
    assert_eq!(h.language, Some("English".to_string()));
}

#[test]
fn body_end_marker_only_yields_one_empty_line() {
    let lines = parse_txt_lines_str("E").unwrap();
    assert_eq!(lines, vec![Line { start: 0, rel: None, notes: vec![] }]);
}

#[test]
fn body_note_count_matches_note_lines() {
    let txt = ": 0 1 2 a\n* 1 2 3 b\n- 8\nF 2 3 4 c\nE\n";
    let lines = parse_txt_lines_str(txt).unwrap();
    let total: usize = lines.iter().map(|l| l.notes.len()).sum();
    assert_eq!(total, 3);
    assert_eq!(lines.len(), 2);
    assert_eq!(lines[0].notes.len(), 2);
    assert_eq!(lines[1].notes.len(), 1);
}

#[test]
fn body_notes_keep_order_and_fields() {
    let txt = ": 0 4 0 Hi\n- 8\n: 8 4 -2 Bye\nE\n";
    let lines = parse_txt_lines_str(txt).unwrap();
    assert_eq!(lines.len(), 2);
    assert_eq!(lines[0].start, 0);
    assert_eq!(
        lines[0].notes,
        vec![Note::Regular { start: 0, duration: 4, pitch: 0, text: "Hi".to_string() }]
    );
    assert_eq!(lines[1].start, 8);
    assert_eq!(
        lines[1].notes,
        vec![Note::Regular { start: 8, duration: 4, pitch: -2, text: "Bye".to_string() }]
    );
}

#[test]
fn body_golden_and_freestyle_notes() {
    let txt = "* 0 1 2 gold\nF 1 2 3 free\nE\n";
    let lines = parse_txt_lines_str(txt).unwrap();
    assert_eq!(
        lines[0].notes[0],
        Note::Golden { start: 0, duration: 1, pitch: 2, text: "gold".to_string() }
    );
    assert_eq!(
        lines[0].notes[1],
        Note::Freestyle { start: 1, duration: 2, pitch: 3, text: "free".to_string() }
    );
}

#[test]
fn body_note_text_kept_verbatim() {
    let txt = ": 0 1 2  spaced out \nE\n";
    let lines = parse_txt_lines_str(txt).unwrap();
    assert_eq!(
        lines[0].notes[0],
        Note::Regular { start: 0, duration: 1, pitch: 2, text: " spaced out ".to_string() }
    );
}

#[test]
fn unknown_note_type_names_line() {
    let e = parse_txt_lines_str("Q 0 4 0 Hi\nE\n").unwrap_err();
    assert_eq!(e, ParserError::UnknownNoteType { line: 1 });
}

#[test]
fn empty_body_line_is_parser_failure() {
    let e = parse_txt_lines_str(": 0 1 2 a\n\nE\n").unwrap_err();
    assert_eq!(e, ParserError::ParserFailure { line: 2 });
}

#[test]
fn unrecognized_body_line_is_parser_failure() {
    let e = parse_txt_lines_str("xyz\nE\n").unwrap_err();
    assert_eq!(e, ParserError::ParserFailure { line: 1 });
}

#[test]
fn bad_line_break_beat_is_value_error() {
    let e = parse_txt_lines_str("- abc\nE\n").unwrap_err();
    assert_eq!(e, ParserError::ValueError { line: 1, field: "line start".to_string() });
}

#[test]
fn bad_note_fields_name_the_field() {
    let e = parse_txt_lines_str(": x 4 0 Hi\nE\n").unwrap_err();
    assert_eq!(e, ParserError::ValueError { line: 1, field: "note start".to_string() });
    let e = parse_txt_lines_str(": 0 x 0 Hi\nE\n").unwrap_err();
    assert_eq!(e, ParserError::ValueError { line: 1, field: "note duration".to_string() });
    let e = parse_txt_lines_str(": 0 4 x Hi\nE\n").unwrap_err();
    assert_eq!(e, ParserError::ValueError { line: 1, field: "note pitch".to_string() });
}

#[test]
fn negative_note_duration_is_value_error() {
    let e = parse_txt_lines_str(": 0 -4 0 Hi\nE\n").unwrap_err();
    assert_eq!(e, ParserError::ValueError { line: 1, field: "note duration".to_string() });
}

#[test]
fn body_skips_header_lines() {
    let txt = "#TITLE:t\n#BPM:1\n: 0 1 2 a\nE\n";
    let lines = parse_txt_lines_str(txt).unwrap();
    assert_eq!(lines.len(), 1);
    assert_eq!(lines[0].notes.len(), 1);
}

#[test]
fn body_ignores_text_after_end_marker() {
    let txt = ": 0 1 2 a\nE\ntotal nonsense !!\n\n";
    let lines = parse_txt_lines_str(txt).unwrap();
    assert_eq!(lines.len(), 1);
    assert_eq!(lines[0].notes.len(), 1);
}

#[test]
fn body_without_lines_is_empty() {
    let lines = parse_txt_lines_str("").unwrap();
    assert_eq!(lines, vec![]);
}

#[test]
fn note_type_names_the_kind() {
    let n = Note::Golden { start: 0, duration: 1, pitch: 2, text: "x".to_string() };
    assert_eq!(n.note_type(), Some(NoteType::Golden));
    let p = Note::PlayerChange { player: 2 };
    assert_eq!(p.note_type(), None);
}

#[test]
fn parse_i32_follows_from_str_grammar() {
    assert_eq!(parse_i32("42"), Some(42));
    assert_eq!(parse_i32("+42"), Some(42));
    assert_eq!(parse_i32("-42"), Some(-42));
    assert_eq!(parse_i32("2147483647"), Some(i32::MAX));
    assert_eq!(parse_i32("-2147483648"), Some(i32::MIN));
    assert_eq!(parse_i32("2147483648"), None);
    assert_eq!(parse_i32("99999999999999999999999"), None);
    assert_eq!(parse_i32(""), None);
    assert_eq!(parse_i32("-"), None);
    assert_eq!(parse_i32("4 2"), None);
}

#[test]
fn parse_u32_follows_from_str_grammar() {
    assert_eq!(parse_u32("0"), Some(0));
    assert_eq!(parse_u32("+7"), Some(7));
    assert_eq!(parse_u32("-7"), None);
    assert_eq!(parse_u32("4294967295"), Some(u32::MAX));
    assert_eq!(parse_u32("4294967296"), None);
    assert_eq!(parse_u32(""), None);
}

#[test]
fn parse_decimal_grammar() {
    assert_eq!(parse_decimal("12,5"), Some(dec(false, 125, 1)));
    assert_eq!(parse_decimal("12.5"), Some(dec(false, 125, 1)));
    assert_eq!(parse_decimal("120"), Some(dec(false, 120, 0)));
    assert_eq!(parse_decimal("-3.25"), Some(dec(true, 325, 2)));
    assert_eq!(parse_decimal(".5"), Some(dec(false, 5, 1)));
    assert_eq!(parse_decimal("5."), Some(dec(false, 5, 0)));
    assert_eq!(parse_decimal("1.2.3"), None);
    assert_eq!(parse_decimal(""), None);
    assert_eq!(parse_decimal("."), None);
    assert_eq!(parse_decimal("1e3"), None);
}
