use ultrastar_txt::{
    Decimal, Note, SongError, Source, assemble_txt_song, canonicalize_header, canonicalize_path,
    decode_txt_bytes, join_path,
};

fn scenario_bytes() -> Vec<u8> {
    b"#ENCODING:CP1250\n#TITLE:Foo\n#ARTIST:Bar\n#BPM:120\n#GAP:0\n#MP3:song.mp3\n: 0 4 0 Hi\n- 8\n: 8 4 0 Bye\nE\n"
        .to_vec()
}

#[test]
fn ascii_scenario_with_declared_encoding() {
    let song = assemble_txt_song(&scenario_bytes()).expect("song should assemble");
    assert_eq!(song.header.title, "Foo");
    assert_eq!(song.header.artist, "Bar");
    assert_eq!(song.header.bpm, Decimal { neg: false, mantissa: 120, scale: 0 });
    assert_eq!(song.header.gap, Some(Decimal { neg: false, mantissa: 0, scale: 0 }));
    assert_eq!(song.header.audio_path, Source::Local("song.mp3".to_string()));
    assert_eq!(song.lines.len(), 2);
    assert_eq!(song.lines[0].start, 0);
    assert_eq!(
        song.lines[0].notes,
        vec![Note::Regular { start: 0, duration: 4, pitch: 0, text: "Hi".to_string() }]
    );
    assert_eq!(song.lines[1].start, 8);
    assert_eq!(
        song.lines[1].notes,
        vec![Note::Regular { start: 8, duration: 4, pitch: 0, text: "Bye".to_string() }]
    );
}

#[test]
fn assembling_twice_is_deterministic() {
    let bytes = scenario_bytes();
    let a = assemble_txt_song(&bytes);
    let b = assemble_txt_song(&bytes);
    assert_eq!(a, b);
}

#[test]
fn detected_encoding_without_declaration() {
    let bytes = b"#TITLE:t\n#ARTIST:a\n#BPM:90\n#GAP:0\n#MP3:x.mp3\n: 0 1 2 la\nE\n".to_vec();
    let song = assemble_txt_song(&bytes).expect("plain text should assemble");
    assert_eq!(song.header.title, "t");
    assert_eq!(song.lines.len(), 1);
}

#[test]
fn unknown_declared_encoding_is_detection_error() {
    let bytes = b"#ENCODING:zzznotreal\n#TITLE:t\n".to_vec();
    let e = assemble_txt_song(&bytes).unwrap_err();
    assert_eq!(e, SongError::EncodingDetectionError);
}

#[test]
fn utf8_bom_is_stripped_and_text_decoded() {
    let mut bytes = vec![0xEF, 0xBB, 0xBF];
    bytes.extend_from_slice(
        b"#ENCODING:UTF-8\n#TITLE:Caf\xC3\xA9\n#ARTIST:a\n#BPM:1\n#GAP:0\n#MP3:x\nE\n",
    );
    let song = assemble_txt_song(&bytes).expect("utf-8 text should assemble");
    assert_eq!(song.header.title, "Caf\u{e9}");
}

#[test]
fn bom_before_declaration_falls_back_to_detection() {
    // the byte-order mark keeps the first line from being a declaration, so
    // the encoding comes from detection; the mark is still stripped
    let mut bytes = vec![0xEF, 0xBB, 0xBF];
    bytes.extend_from_slice(b"#ENCODING:Utf-8\n#TITLE:x\n");
    let txt = decode_txt_bytes(&bytes).unwrap();
    assert!(txt.starts_with("#ENCODING:Utf-8\n"));
}

#[test]
fn utf16le_bom_is_stripped() {
    let mut bytes = vec![0xFF, 0xFE];
    for b in b"#TITLE:t\nE\n" {
        bytes.push(*b);
        bytes.push(0);
    }
    let txt = decode_txt_bytes(&bytes).unwrap();
    assert_eq!(txt, "#TITLE:t\nE\n");
}

#[test]
fn escape_only_bytes_are_a_detection_error_not_a_crash() {
    let e = decode_txt_bytes(&vec![0x1B]).unwrap_err();
    assert_eq!(e, SongError::EncodingDetectionError);
    let e = decode_txt_bytes(&vec![b'a', 0x1B, b'b', b'\n']).unwrap_err();
    assert_eq!(e, SongError::EncodingDetectionError);
}

#[test]
fn decode_is_the_identity_on_plain_ascii() {
    let bytes = b"#TITLE:t\nE\n".to_vec();
    let txt = decode_txt_bytes(&bytes).unwrap();
    assert_eq!(txt, "#TITLE:t\nE\n");
}

#[test]
fn header_failure_is_wrapped_with_phase() {
    let bytes = b"#TITLE:a\n#TITLE:b\n".to_vec();
    let e = assemble_txt_song(&bytes).unwrap_err();
    assert_eq!(
        e,
        SongError::HeaderParsingError(ultrastar_txt::ParserError::DuplicateHeader {
            line: 2,
            tag: "TITLE".to_string(),
        })
    );
}

#[test]
fn body_failure_is_wrapped_with_phase() {
    let bytes =
        b"#TITLE:t\n#ARTIST:a\n#BPM:1\n#GAP:0\n#MP3:x\nnot a body line\nE\n".to_vec();
    let e = assemble_txt_song(&bytes).unwrap_err();
    assert_eq!(
        e,
        SongError::LinesParsingError(ultrastar_txt::ParserError::ParserFailure { line: 6 })
    );
}

#[test]
fn join_path_follows_push_rules() {
    assert_eq!(join_path("songs", "a.mp3"), "songs/a.mp3");
    assert_eq!(join_path("songs/", "a.mp3"), "songs/a.mp3");
    assert_eq!(join_path("", "a.mp3"), "a.mp3");
    assert_eq!(join_path("songs", "/abs/a.mp3"), "/abs/a.mp3");
}

#[test]
fn canonicalize_absent_stays_absent() {
    let r = canonicalize_path(&None, "base", None).unwrap();
    assert_eq!(r, None);
}

#[test]
fn canonicalize_remote_passes_through() {
    let src = Some(Source::Remote("http://example.com/a.mp3".to_string()));
    let r = canonicalize_path(&src, "base", None).unwrap();
    assert_eq!(r, Some(Source::Remote("http://example.com/a.mp3".to_string())));
}

#[test]
fn canonicalize_local_takes_resolved_path() {
    let src = Some(Source::Local("a.mp3".to_string()));
    let r = canonicalize_path(&src, "base", Some("/abs/base/a.mp3".to_string())).unwrap();
    assert_eq!(r, Some(Source::Local("/abs/base/a.mp3".to_string())));
}

#[test]
fn canonicalize_header_resolves_each_reference() {
    let bytes =
        b"#TITLE:t\n#ARTIST:a\n#BPM:1\n#GAP:0\n#MP3:a.mp3\n#VIDEO:v.mp4\nE\n".to_vec();
    let song = assemble_txt_song(&bytes).unwrap();
    let h = canonicalize_header(
        song.header,
        "base",
        Some("/abs/base/a.mp3".to_string()),
        Some("/abs/base/v.mp4".to_string()),
        None,
        None,
    )
    .unwrap();
    assert_eq!(h.audio_path, Source::Local("/abs/base/a.mp3".to_string()));
    assert_eq!(h.video_path, Some(Source::Local("/abs/base/v.mp4".to_string())));
    assert_eq!(h.cover_path, None);
    assert_eq!(h.title, "t");
}

#[test]
fn canonicalize_header_fails_on_unresolved_audio() {
    let bytes = b"#TITLE:t\n#ARTIST:a\n#BPM:1\n#GAP:0\n#MP3:a.mp3\nE\n".to_vec();
    let song = assemble_txt_song(&bytes).unwrap();
    let e = canonicalize_header(song.header, "base", None, None, None, None).unwrap_err();
    assert_eq!(e, SongError::CanonicalizationError("base/a.mp3".to_string()));
}

#[test]
fn canonicalize_failure_names_joined_path() {
    let src = Some(Source::Local("a.mp3".to_string()));
    let e = canonicalize_path(&src, "base", None).unwrap_err();
    assert_eq!(e, SongError::CanonicalizationError("base/a.mp3".to_string()));
}
