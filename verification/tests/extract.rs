use ytdl::errors::Error;
use ytdl::video_info::{get_id_from_string, info_url, Format};

#[test]
fn extract_long_form() {
    let id = get_id_from_string("https://www.youtube.com/watch?v=abc123&t=10").unwrap();
    assert_eq!(id, "abc123");
}

#[test]
fn extract_short_form() {
    let id = get_id_from_string("https://youtu.be/abc123?t=5").unwrap();
    assert_eq!(id, "abc123");
}

#[test]
fn extract_short_form_keeps_ampersand() {
    let id = get_id_from_string("https://youtu.be/a&b").unwrap();
    assert_eq!(id, "a&b");
}

#[test]
fn extract_short_form_stops_at_question_mark() {
    let id = get_id_from_string("https://youtu.be/a&b?t=1").unwrap();
    assert_eq!(id, "a&b");
}

#[test]
fn extract_unrecognized_reference() {
    let r = get_id_from_string("https://example.com/video");
    assert!(matches!(r, Err(Error::ReferenceError)));
}

#[test]
fn extract_marker_at_end_is_empty() {
    let id = get_id_from_string("https://www.youtube.com/watch?v=").unwrap();
    assert_eq!(id, "");
}

#[test]
fn extract_takes_first_marker() {
    let id = get_id_from_string("https://www.youtube.com/watch?v=first&v=second").unwrap();
    assert_eq!(id, "first");
}

#[test]
fn extract_long_form_wins_over_short() {
    let id = get_id_from_string("https://youtu.be/short?v=long&x=1").unwrap();
    assert_eq!(id, "long");
}

#[test]
fn info_url_appends_identifier() {
    assert_eq!(
        info_url("abc123"),
        "https://www.youtube.com/get_video_info?video_id=abc123"
    );
}

#[test]
fn mime_split_recovers_parts() {
    let (t, e, c) = Format::parse_mime("video/mp4;codecs=\"avc1.4d401e\"").unwrap();
    assert_eq!(t, "video");
    assert_eq!(e, "mp4");
    assert_eq!(c, "avc1.4d401e");
}

#[test]
fn mime_split_recovers_audio_parts() {
    let (t, e, c) = Format::parse_mime("audio/webm;codecs=\"opus\"").unwrap();
    assert_eq!(t, "audio");
    assert_eq!(e, "webm");
    assert_eq!(c, "opus");
}

#[test]
fn mime_missing_slash_fails() {
    let r = Format::parse_mime("audiowebm;codecs=\"opus\"");
    match r {
        Err(Error::DecodeError(f)) => assert_eq!(f, "type"),
        _ => panic!("expected a decode failure naming type"),
    }
}

#[test]
fn mime_missing_semicolon_fails() {
    let r = Format::parse_mime("audio/webm codecs=\"opus\"");
    match r {
        Err(Error::DecodeError(f)) => assert_eq!(f, "type"),
        _ => panic!("expected a decode failure naming type"),
    }
}

#[test]
fn mime_missing_codecs_marker_fails() {
    let r = Format::parse_mime("audio/webm;opus");
    match r {
        Err(Error::DecodeError(f)) => assert_eq!(f, "type"),
        _ => panic!("expected a decode failure naming type"),
    }
}

#[test]
fn mime_nothing_after_codecs_marker_fails() {
    let r = Format::parse_mime("audio/webm;codecs=\"");
    match r {
        Err(Error::DecodeError(f)) => assert_eq!(f, "type"),
        _ => panic!("expected a decode failure naming type"),
    }
}
