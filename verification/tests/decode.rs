use ytdl::errors::Error;
use ytdl::video_info::{FormatDetails, VideoDetails, VideoInfo};

fn form(pairs: &[(&str, &str)]) -> String {
    let owned: Vec<(String, String)> = pairs
        .iter()
        .map(|(k, v)| (k.to_string(), v.to_string()))
        .collect();
    serde_urlencoded::to_string(&owned).unwrap()
}

fn video_segment() -> String {
    form(&[
        ("itag", "137"),
        ("bitrate", "4452000"),
        ("url", "https://media.example/video?sig=a,b&x=1"),
        ("type", "video/mp4;codecs=\"avc1.640028\""),
        ("fps", "30"),
        ("size", "1920x1080"),
        ("quality_label", "1080p"),
    ])
}

fn audio_segment() -> String {
    form(&[
        ("itag", "140"),
        ("bitrate", "128000"),
        ("url", "https://media.example/audio"),
        ("type", "audio/mp4;codecs=\"mp4a.40.2\""),
        ("audio_channels", "2"),
        ("audio_sample_rate", "44100"),
    ])
}

fn player_response() -> String {
    "{\"videoDetails\":{\"channelId\":\"UC123\",\"videoId\":\"abc123\",\"title\":\"A short film\",\"author\":\"Someone\",\"averageRating\":4.5,\"viewCount\":\"987654\",\"keywords\":[\"one\",\"two\"],\"shortDescription\":\"About nothing\"}}"
    .to_string()
}

fn body_with(fmts: &str, player: &str) -> String {
    form(&[
        ("length_seconds", "212"),
        ("adaptive_fmts", fmts),
        ("player_response", player),
    ])
}

fn full_body() -> String {
    let fmts = format!("{},{}", video_segment(), audio_segment());
    body_with(&fmts, &player_response())
}

fn decode_err(body: &str) -> String {
    match VideoInfo::decode(body) {
        Err(Error::DecodeError(f)) => f,
        Err(_) => panic!("expected a decode failure"),
        Ok(_) => panic!("expected a failure, decoded fine"),
    }
}

#[test]
fn decode_full_body() {
    let info = VideoInfo::decode(&full_body()).unwrap();
    assert_eq!(info.length_seconds, 212);
    assert_eq!(info.formats.len(), 2);

    let v = &info.formats[0];
    assert_eq!(v.itag, 137);
    assert_eq!(v.bitrate, 4452000);
    assert_eq!(v.url, "https://media.example/video?sig=a,b&x=1");
    assert_eq!(v.extension, "mp4");
    assert_eq!(v.codec, "avc1.640028");
    match &v.details {
        FormatDetails::Video { fps, size, quality_label } => {
            assert_eq!(*fps, 30);
            assert_eq!(size, "1920x1080");
            assert_eq!(quality_label, "1080p");
        }
        _ => panic!("expected video details"),
    }

    let a = &info.formats[1];
    assert_eq!(a.itag, 140);
    assert_eq!(a.extension, "mp4");
    assert_eq!(a.codec, "mp4a.40.2");
    match &a.details {
        FormatDetails::Audio { audio_channels, audio_sample_rate } => {
            assert_eq!(*audio_channels, 2);
            assert_eq!(*audio_sample_rate, 44100);
        }
        _ => panic!("expected audio details"),
    }

    let d = &info.details;
    assert_eq!(d.channel_id, "UC123");
    assert_eq!(d.video_id, "abc123");
    assert_eq!(d.title, "A short film");
    assert_eq!(d.author, "Someone");
    assert_eq!(d.average_rating, "4.5");
    assert_eq!(d.view_count, 987654);
    assert_eq!(d.keywords, vec!["one".to_string(), "two".to_string()]);
    assert_eq!(d.short_description, "About nothing");
}

#[test]
fn decode_keeps_segment_count_and_order() {
    let fmts = format!(
        "{},{},{}",
        audio_segment(),
        video_segment(),
        audio_segment()
    );
    let info = VideoInfo::decode(&body_with(&fmts, &player_response())).unwrap();
    assert_eq!(info.formats.len(), 3);
    assert_eq!(info.formats[0].itag, 140);
    assert_eq!(info.formats[1].itag, 137);
    assert_eq!(info.formats[2].itag, 140);
}

#[test]
fn decode_missing_adaptive_fmts() {
    let body = form(&[
        ("length_seconds", "212"),
        ("player_response", &player_response()),
    ]);
    assert_eq!(decode_err(&body), "adaptive_fmts");
}

#[test]
fn decode_empty_adaptive_fmts_is_one_empty_segment() {
    assert_eq!(decode_err(&body_with("", &player_response())), "itag");
}

#[test]
fn decode_missing_length_seconds() {
    let body = form(&[
        ("adaptive_fmts", &audio_segment()),
        ("player_response", &player_response()),
    ]);
    assert_eq!(decode_err(&body), "length_seconds");
}

#[test]
fn decode_malformed_length_seconds() {
    let body = form(&[
        ("length_seconds", "21x"),
        ("adaptive_fmts", &audio_segment()),
        ("player_response", &player_response()),
    ]);
    assert_eq!(decode_err(&body), "length_seconds");
}

#[test]
fn decode_segment_missing_itag() {
    let seg = form(&[
        ("bitrate", "128000"),
        ("url", "https://media.example/audio"),
        ("type", "audio/mp4;codecs=\"mp4a.40.2\""),
        ("audio_channels", "2"),
        ("audio_sample_rate", "44100"),
    ]);
    assert_eq!(decode_err(&body_with(&seg, &player_response())), "itag");
}

#[test]
fn decode_segment_itag_out_of_range() {
    let seg = form(&[
        ("itag", "4294967296"),
        ("bitrate", "128000"),
        ("url", "https://media.example/audio"),
        ("type", "audio/mp4;codecs=\"mp4a.40.2\""),
        ("audio_channels", "2"),
        ("audio_sample_rate", "44100"),
    ]);
    assert_eq!(decode_err(&body_with(&seg, &player_response())), "itag");
}

#[test]
fn decode_segment_bad_mime() {
    let seg = form(&[
        ("itag", "140"),
        ("bitrate", "128000"),
        ("url", "https://media.example/audio"),
        ("type", "audio mp4 no delimiters"),
    ]);
    assert_eq!(decode_err(&body_with(&seg, &player_response())), "type");
}

#[test]
fn decode_segment_unknown_major_type() {
    let seg = form(&[
        ("itag", "140"),
        ("bitrate", "128000"),
        ("url", "https://media.example/x"),
        ("type", "text/plain;codecs=\"none\""),
    ]);
    assert_eq!(decode_err(&body_with(&seg, &player_response())), "type");
}

#[test]
fn decode_video_segment_missing_fps() {
    let seg = form(&[
        ("itag", "137"),
        ("bitrate", "4452000"),
        ("url", "https://media.example/video"),
        ("type", "video/mp4;codecs=\"avc1.640028\""),
        ("size", "1920x1080"),
        ("quality_label", "1080p"),
    ]);
    assert_eq!(decode_err(&body_with(&seg, &player_response())), "fps");
}

#[test]
fn decode_second_segment_failure_aborts_all() {
    let seg = form(&[("itag", "140")]);
    let fmts = format!("{},{}", audio_segment(), seg);
    assert_eq!(decode_err(&body_with(&fmts, &player_response())), "bitrate");
}

#[test]
fn decode_malformed_player_response() {
    let body = body_with(&audio_segment(), "{not json");
    assert_eq!(decode_err(&body), "player_response");
}

#[test]
fn decode_missing_player_response() {
    let body = form(&[
        ("length_seconds", "212"),
        ("adaptive_fmts", &audio_segment()),
    ]);
    assert_eq!(decode_err(&body), "player_response");
}

#[test]
fn decode_missing_video_details() {
    let body = body_with(&audio_segment(), "{\"other\":1}");
    assert_eq!(decode_err(&body), "videoDetails");
}

#[test]
fn decode_missing_channel_id() {
    let player = "{\"videoDetails\":{\"videoId\":\"abc\"}}";
    let body = body_with(&audio_segment(), player);
    assert_eq!(decode_err(&body), "channelId");
}

#[test]
fn decode_average_rating_not_a_number() {
    let player = "{\"videoDetails\":{\"channelId\":\"UC123\",\"videoId\":\"abc\",\"title\":\"t\",\"author\":\"a\",\"averageRating\":\"high\",\"viewCount\":\"9\",\"shortDescription\":\"d\"}}";
    let body = body_with(&audio_segment(), player);
    assert_eq!(decode_err(&body), "averageRating");
}

#[test]
fn decode_malformed_view_count() {
    let player = "{\"videoDetails\":{\"channelId\":\"UC123\",\"videoId\":\"abc\",\"title\":\"t\",\"author\":\"a\",\"averageRating\":4.0,\"viewCount\":\"many\",\"shortDescription\":\"d\"}}";
    let body = body_with(&audio_segment(), player);
    assert_eq!(decode_err(&body), "viewCount");
}

#[test]
fn decode_keywords_absent_is_empty() {
    let player = "{\"videoDetails\":{\"channelId\":\"UC123\",\"videoId\":\"abc\",\"title\":\"t\",\"author\":\"a\",\"averageRating\":4.0,\"viewCount\":\"9\",\"shortDescription\":\"d\"}}";
    let info = VideoInfo::decode(&body_with(&audio_segment(), player)).unwrap();
    assert!(info.details.keywords.is_empty());
}

#[test]
fn decode_keywords_null_is_empty() {
    let player = "{\"videoDetails\":{\"channelId\":\"UC123\",\"videoId\":\"abc\",\"title\":\"t\",\"author\":\"a\",\"averageRating\":4.0,\"viewCount\":\"9\",\"keywords\":null,\"shortDescription\":\"d\"}}";
    let info = VideoInfo::decode(&body_with(&audio_segment(), player)).unwrap();
    assert!(info.details.keywords.is_empty());
}

#[test]
fn decode_keywords_not_strings_fails() {
    let player = "{\"videoDetails\":{\"channelId\":\"UC123\",\"videoId\":\"abc\",\"title\":\"t\",\"author\":\"a\",\"averageRating\":4.0,\"viewCount\":\"9\",\"keywords\":[\"one\",2],\"shortDescription\":\"d\"}}";
    let body = body_with(&audio_segment(), player);
    assert_eq!(decode_err(&body), "keywords");
}

#[test]
fn details_from_parts_in_order() {
    let r = VideoDetails::from_parts(
        Some("c".to_string()),
        Some("v".to_string()),
        Some("t".to_string()),
        Some("a".to_string()),
        Some("4.5".to_string()),
        Some("12".to_string()),
        Some(vec![]),
        Some("d".to_string()),
    )
    .unwrap();
    assert_eq!(r.view_count, 12);
    assert_eq!(r.average_rating, "4.5");
}

#[test]
fn details_from_parts_names_first_missing() {
    let r = VideoDetails::from_parts(
        Some("c".to_string()),
        None,
        None,
        Some("a".to_string()),
        Some("4.5".to_string()),
        Some("12".to_string()),
        Some(vec![]),
        Some("d".to_string()),
    );
    match r {
        Err(Error::DecodeError(f)) => assert_eq!(f, "videoId"),
        _ => panic!("expected a decode failure naming videoId"),
    }
}
