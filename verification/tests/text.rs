use ytdl::format::{what, Format};
use ytdl::text::{find_substr, parse_uint, scan_char, split_commas_exec, str_eq};

#[test]
fn find_substr_first_occurrence() {
    assert_eq!(find_substr("abcabc", "bc"), Some(1));
    assert_eq!(find_substr("abc", "zz"), None);
    assert_eq!(find_substr("abc", ""), Some(0));
    assert_eq!(find_substr("", "a"), None);
}

#[test]
fn scan_char_finds_or_ends() {
    assert_eq!(scan_char("a,b", 0, ','), 1);
    assert_eq!(scan_char("a,b", 2, ','), 3);
    assert_eq!(scan_char("abc", 0, ','), 3);
}

#[test]
fn str_eq_compares_characters() {
    assert!(str_eq("abc", "abc"));
    assert!(!str_eq("abc", "abd"));
    assert!(!str_eq("abc", "abcd"));
}

#[test]
fn parse_uint_accepts_plain_and_signed() {
    assert_eq!(parse_uint("212", u64::MAX), Some(212));
    assert_eq!(parse_uint("+5", u64::MAX), Some(5));
    assert_eq!(parse_uint("0007", u64::MAX), Some(7));
    assert_eq!(
        parse_uint("18446744073709551615", u64::MAX),
        Some(u64::MAX)
    );
}

#[test]
fn parse_uint_rejects_malformed_and_overflow() {
    assert_eq!(parse_uint("", u64::MAX), None);
    assert_eq!(parse_uint("+", u64::MAX), None);
    assert_eq!(parse_uint("1x", u64::MAX), None);
    assert_eq!(parse_uint("-1", u64::MAX), None);
    assert_eq!(parse_uint("18446744073709551616", u64::MAX), None);
    assert_eq!(parse_uint("256", 255), None);
    assert_eq!(parse_uint("255", 255), Some(255));
}

#[test]
fn split_commas_keeps_count_and_order() {
    assert_eq!(split_commas_exec("a,b,c"), vec!["a", "b", "c"]);
    assert_eq!(split_commas_exec("a,,b"), vec!["a", "", "b"]);
    assert_eq!(split_commas_exec(""), vec![""]);
    assert_eq!(split_commas_exec("one"), vec!["one"]);
    assert_eq!(split_commas_exec("a,"), vec!["a", ""]);
}

#[test]
fn classic_profile_record() {
    what();
    let f = Format {
        itag: 5,
        audio_bitrate: 64,
        extension: "flv",
        resolution: "240p",
        video_encoding: "Sorenson H.283",
        audio_encoding: "mp3",
    };
    assert_eq!(f.clone().itag, 5);
    assert_eq!(Format::default().extension, "");
}
