//! The typed catalog of downloadable formats, the identifier extractor
//! and the metadata decoder.

use vstd::prelude::*;
use vstd::string::StringExecFns;

use crate::errors::{is_decode_err, Error};
use crate::form::{form_decode, form_decode_of};
use crate::json::{
    arr_of, entry_of, json_doc_of, null_of, num_of, parse_json_document, str_of, text_of,
    value_as_array, value_as_str, value_get, value_is_null, value_is_number, value_to_text,
};
use crate::text::{
    char_end, contains_at, find_sub, find_substr, lemma_find_sub_first, parse_uint, scan_char,
    split_commas, split_commas_exec, str_eq, uint_ok, uint_val,
};

verus! {

/// General video container.
#[derive(Debug)]
pub struct VideoInfo {
    /// Duration of the video in seconds.
    pub length_seconds: u64,
    /// The formats offered for the video, in the order the service lists
    /// them.
    pub formats: Vec<Format>,
    /// Detailed video information such as keywords, title, and more.
    pub details: VideoDetails,
}

/// Detailed video information.
#[derive(Debug)]
pub struct VideoDetails {
    /// Identifier of the channel of the `author`.
    pub channel_id: String,
    /// The name of the channel for this video.
    pub author: String,
    /// Identifier of this video.
    pub video_id: String,
    /// The title of the video.
    pub title: String,
    /// Keywords of the video; empty when the source field is absent or
    /// null.
    pub keywords: Vec<String>,
    /// Average rating of the video, kept as the decimal notation the
    /// service sent.
    pub average_rating: String,
    /// A short description of the video.
    pub short_description: String,
    /// View count of the video.
    pub view_count: u64,
}

/// Specific format details, depending on whether the content is a video
/// or an audio stream.
#[derive(Debug)]
pub enum FormatDetails {
    Video {
        /// Frames per second.
        fps: u16,
        /// Dimensions of the video, such as `1920x1080`.
        size: String,
        /// Quality of the video, such as `720p`.
        quality_label: String,
    },
    Audio {
        /// How many audio channels there are.
        audio_channels: u8,
        /// Sample rate of the audio.
        audio_sample_rate: u32,
    },
}

/// General format details.
#[derive(Debug)]
pub struct Format {
    /// Service identifier for this format; formats with the same `itag`
    /// are expected to share `codec`, `extension`, `bitrate` and
    /// `details`.
    pub itag: u32,
    /// Bitrate of the format.
    pub bitrate: u32,
    /// The direct download link, an opaque signed string kept verbatim.
    pub url: String,
    /// The extension of the file.
    pub extension: String,
    /// Encoding standard.
    pub codec: String,
    /// Specific format details.
    pub details: FormatDetails,
}

/// The position after `start` where a long-form identifier ends: the
/// first `?` or `&` at or after `start`, or the end of the string. The
/// identifier sits inside a query string there, so either delimiter
/// closes it.
pub open spec fn id_end(s: Seq<char>, start: int) -> int {
    let q = char_end(s, start, '?');
    let a = char_end(s, start, '&');
    if q <= a {
        q
    } else {
        a
    }
}

/// The identifier that a reference string denotes: the characters after
/// the first `?v=` marker, up to the next `?` or `&`; or else the
/// characters after the first `youtu.be/` marker, up to the next `?`
/// alone (the short form carries no query string of its own). `None`
/// when neither marker occurs.
pub open spec fn extracted_id(s: Seq<char>) -> Option<Seq<char>> {
    match find_sub(s, "?v="@) {
        Some(i) => Some(s.subrange(i + "?v="@.len(), id_end(s, i + "?v="@.len()))),
        None => match find_sub(s, "youtu.be/"@) {
            Some(i) => Some(
                s.subrange(
                    i + "youtu.be/"@.len(),
                    char_end(s, i + "youtu.be/"@.len(), '?'),
                ),
            ),
            None => None,
        },
    }
}

/// Derives the canonical video identifier from a reference string.
///
/// Two shapes are recognized: one holding the marker `?v=`, whose
/// identifier runs up to the next `?` or `&`, and one holding the marker
/// `youtu.be/`, whose identifier runs up to the next `?` or the end. A
/// marker at the very end yields an empty identifier, which is accepted.
/// Anything else is a `ReferenceError`.
pub fn get_id_from_string(s: &str) -> (r: Result<String, Error>)
    ensures
        match extracted_id(s@) {
            Some(id) => r matches Ok(v) && v@ == id,
            None => r matches Err(e) && e is ReferenceError,
        },
{
    proof {
        reveal_strlit("?v=");
        reveal_strlit("youtu.be/");
    }
    let n = s.unicode_len();
    match find_substr(s, "?v=") {
        Some(i) => {
            proof {
                lemma_find_sub_first(s@, "?v="@);
                assert(contains_at(s@, i as int, "?v="@));
                assert("?v="@.len() == 3);
            }
            Ok(id_at(s, i + 3))
        },
        None => match find_substr(s, "youtu.be/") {
            Some(i) => {
                proof {
                    lemma_find_sub_first(s@, "youtu.be/"@);
                    assert(contains_at(s@, i as int, "youtu.be/"@));
                    assert("youtu.be/"@.len() == 9);
                }
                let start = i + 9;
                let q = scan_char(s, start, '?');
                Ok(s.substring_char(start, q).to_owned())
            },
            None => Err(Error::ReferenceError),
        },
    }
}

/// The characters from `start` up to the next `?` or `&`, or the end.
fn id_at(s: &str, start: usize) -> (r: String)
    requires
        start <= s@.len(),
    ensures
        r@ == s@.subrange(start as int, id_end(s@, start as int)),
{
    let q = scan_char(s, start, '?');
    let a = scan_char(s, start, '&');
    let end = if q <= a {
        q
    } else {
        a
    };
    s.substring_char(start, end).to_owned()
}

/// The three parts of a composite type field `major/extension;` followed
/// by a codec clause: the token before the first `/`, the token between
/// that and the first following `;`, and what stands after the first
/// `codecs="` of the clause, short of the final character. `None` when a
/// delimiter is missing or nothing follows `codecs="`.
pub open spec fn mime_parts(s: Seq<char>) -> Option<(Seq<char>, Seq<char>, Seq<char>)> {
    match find_sub(s, "/"@) {
        None => None,
        Some(fs) => {
            let major = s.subrange(0, fs);
            let rest = s.subrange(fs + 1, s.len() as int);
            match find_sub(rest, ";"@) {
                None => None,
                Some(sc) => {
                    let ext = rest.subrange(0, sc);
                    let clause = rest.subrange(sc + 1, rest.len() as int);
                    match find_sub(clause, "codecs=\""@) {
                        None => None,
                        Some(cd) => {
                            let cs = cd + "codecs=\""@.len();
                            if cs < clause.len() {
                                Some((major, ext, clause.subrange(cs, clause.len() - 1)))
                            } else {
                                None
                            }
                        },
                    }
                },
            }
        },
    }
}

/// Splitting a composite type field built from a major type, an
/// extension and a codec recovers exactly those three parts, whenever the
/// major type is `video` or `audio` and the other two parts hold none of
/// the delimiter characters `/`, `;` and `"`.
pub proof fn lemma_mime_round_trip(t: Seq<char>, e: Seq<char>, c: Seq<char>)
    requires
        t == "video"@ || t == "audio"@,
        forall|i: int| 0 <= i < e.len() ==> e[i] != '/' && e[i] != ';' && e[i] != '"',
        forall|i: int| 0 <= i < c.len() ==> c[i] != '/' && c[i] != ';' && c[i] != '"',
    ensures
        mime_parts(t + "/"@ + e + ";codecs=\""@ + c + "\""@) == Some((t, e, c)),
{
    reveal_strlit("video");
    reveal_strlit("audio");
    reveal_strlit("/");
    reveal_strlit(";");
    reveal_strlit("codecs=\"");
    reveal_strlit(";codecs=\"");
    reveal_strlit("\"");
    let s = t + "/"@ + e + ";codecs=\""@ + c + "\""@;
    let tl = t.len() as int;
    assert(forall|i: int| 0 <= i < t.len() ==> t[i] != '/' && t[i] != ';' && t[i] != '"');
    assert(s[tl] == '/');
    assert(contains_at(s, tl, "/"@)) by {
        assert(s.subrange(tl, tl + 1) =~= "/"@);
    }
    assert forall|j: int| 0 <= j < tl implies !contains_at(s, j, "/"@) by {
        if contains_at(s, j, "/"@) {
            assert(s.subrange(j, j + 1)[0] == s[j]);
            assert(s[j] == '/');
            assert(s[j] == t[j]);
        }
    }
    crate::text::lemma_find_sub_unique(s, "/"@, tl);
    let rest = s.subrange(tl + 1, s.len() as int);
    assert(rest =~= e + ";codecs=\""@ + c + "\""@);
    let el = e.len() as int;
    assert(rest[el] == ';');
    assert(contains_at(rest, el, ";"@)) by {
        assert(rest.subrange(el, el + 1) =~= ";"@);
    }
    assert forall|j: int| 0 <= j < el implies !contains_at(rest, j, ";"@) by {
        if contains_at(rest, j, ";"@) {
            assert(rest.subrange(j, j + 1)[0] == rest[j]);
            assert(rest[j] == ';');
            assert(rest[j] == e[j]);
        }
    }
    crate::text::lemma_find_sub_unique(rest, ";"@, el);
    assert(rest.subrange(0, el) =~= e);
    let clause = rest.subrange(el + 1, rest.len() as int);
    assert(clause =~= "codecs=\""@ + c + "\""@);
    assert(contains_at(clause, 0, "codecs=\""@)) by {
        assert(clause.subrange(0, 8) =~= "codecs=\""@);
    }
    crate::text::lemma_find_sub_unique(clause, "codecs=\""@, 0);
    assert(clause.len() == 9 + c.len());
    assert(clause.subrange(8, clause.len() - 1) =~= c);
}

/// The value under the first occurrence of key `k`, if any.
pub open spec fn lookup(ps: Seq<(Seq<char>, Seq<char>)>, k: Seq<char>) -> Option<Seq<char>>
    decreases ps.len(),
{
    if ps.len() == 0 {
        None
    } else if ps[0].0 == k {
        Some(ps[0].1)
    } else {
        lookup(ps.drop_first(), k)
    }
}

/// Finds the value under the first occurrence of key `k` in `ps`.
pub fn lookup_pairs(ps: &Vec<(String, String)>, k: &str) -> (r: Option<String>)
    ensures
        match r {
            Some(v) => lookup(ps.deep_view(), k@) == Some(v@),
            None => lookup(ps.deep_view(), k@) is None,
        },
{
    let ghost psv = ps.deep_view();
    let n = ps.len();
    let mut i: usize = 0;
    proof {
        assert(psv.skip(0) =~= psv);
    }
    while i < n
        invariant
            n == ps.len(),
            i <= n,
            psv == ps.deep_view(),
            psv.len() == n,
            lookup(psv, k@) == lookup(psv.skip(i as int), k@),
        decreases n - i,
    {
        if str_eq(ps[i].0.as_str(), k) {
            proof {
                assert(psv.skip(i as int)[0] == psv[i as int]);
            }
            return Some(ps[i].1.clone());
        }
        proof {
            assert(psv.skip(i as int)[0] == psv[i as int]);
            assert(psv.skip(i as int).drop_first() =~= psv.skip(i + 1));
        }
        i += 1;
    }
    proof {
        assert(psv.skip(n as int) =~= Seq::<(Seq<char>, Seq<char>)>::empty());
    }
    None
}

/// Holds when `ps` carries under key `k` well-formed unsigned decimal
/// notation for a value of at most `max`.
pub open spec fn uint_field_ok(ps: Seq<(Seq<char>, Seq<char>)>, k: Seq<char>, max: nat) -> bool {
    lookup(ps, k) matches Some(v) && uint_ok(v, max)
}

/// The value that the field under key `k` denotes.
pub open spec fn uint_field_val(ps: Seq<(Seq<char>, Seq<char>)>, k: Seq<char>) -> nat {
    uint_val(lookup(ps, k)->Some_0)
}

/// Reads the field under key `k` as an unsigned integer of at most
/// `max`; failure is a decode failure naming `k`.
fn uint_field(ps: &Vec<(String, String)>, k: &str, max: u64) -> (r: Result<u64, Error>)
    ensures
        match r {
            Ok(v) => uint_field_ok(ps.deep_view(), k@, max as nat) && v as nat == uint_field_val(
                ps.deep_view(),
                k@,
            ) && v <= max,
            Err(e) => !uint_field_ok(ps.deep_view(), k@, max as nat) && (e matches
            Error::DecodeError(f) && f@ == k@),
        },
{
    match lookup_pairs(ps, k) {
        Some(v) => match parse_uint(v.as_str(), max) {
            Some(n) => Ok(n),
            None => Err(Error::decode(k)),
        },
        None => Err(Error::decode(k)),
    }
}

/// Reads the field under key `k` verbatim; a missing key is a decode
/// failure naming `k`.
fn string_field(ps: &Vec<(String, String)>, k: &str) -> (r: Result<String, Error>)
    ensures
        match r {
            Ok(v) => lookup(ps.deep_view(), k@) == Some(v@),
            Err(e) => lookup(ps.deep_view(), k@) is None && (e matches Error::DecodeError(f)
            && f@ == k@),
        },
{
    match lookup_pairs(ps, k) {
        Some(v) => Ok(v),
        None => Err(Error::decode(k)),
    }
}

/// The first missing or malformed field of a format record's details,
/// given its major type token, in reading order; an unrecognized major
/// type is itself a failure naming `type`.
pub open spec fn details_field_err(ps: Seq<(Seq<char>, Seq<char>)>, major: Seq<char>) -> Option<
    Seq<char>,
> {
    if major == "video"@ {
        if !uint_field_ok(ps, "fps"@, u16::MAX as nat) {
            Some("fps"@)
        } else if lookup(ps, "size"@) is None {
            Some("size"@)
        } else if lookup(ps, "quality_label"@) is None {
            Some("quality_label"@)
        } else {
            None
        }
    } else if major == "audio"@ {
        if !uint_field_ok(ps, "audio_channels"@, u8::MAX as nat) {
            Some("audio_channels"@)
        } else if !uint_field_ok(ps, "audio_sample_rate"@, u32::MAX as nat) {
            Some("audio_sample_rate"@)
        } else {
            None
        }
    } else {
        Some("type"@)
    }
}

/// Holds when `d` carries exactly the detail fields that `ps` holds for
/// major type `major`.
pub open spec fn details_matches(
    d: FormatDetails,
    ps: Seq<(Seq<char>, Seq<char>)>,
    major: Seq<char>,
) -> bool {
    if major == "video"@ {
        &&& d matches FormatDetails::Video { fps, size, quality_label }
        &&& fps as nat == uint_field_val(ps, "fps"@)
        &&& lookup(ps, "size"@) == Some(size@)
        &&& lookup(ps, "quality_label"@) == Some(quality_label@)
    } else if major == "audio"@ {
        &&& d matches FormatDetails::Audio { audio_channels, audio_sample_rate }
        &&& audio_channels as nat == uint_field_val(ps, "audio_channels"@)
        &&& audio_sample_rate as nat == uint_field_val(ps, "audio_sample_rate"@)
    } else {
        false
    }
}

/// The first missing or malformed field of a format record, in reading
/// order: `itag`, `bitrate`, `url`, then the composite `type` field and
/// the details it selects.
pub open spec fn format_field_err(ps: Seq<(Seq<char>, Seq<char>)>) -> Option<Seq<char>> {
    if !uint_field_ok(ps, "itag"@, u32::MAX as nat) {
        Some("itag"@)
    } else if !uint_field_ok(ps, "bitrate"@, u32::MAX as nat) {
        Some("bitrate"@)
    } else if lookup(ps, "url"@) is None {
        Some("url"@)
    } else {
        match lookup(ps, "type"@) {
            None => Some("type"@),
            Some(t) => match mime_parts(t) {
                None => Some("type"@),
                Some(p) => details_field_err(ps, p.0),
            },
        }
    }
}

/// Holds when `f` carries exactly the fields that the record `ps`
/// holds.
pub open spec fn format_matches(f: Format, ps: Seq<(Seq<char>, Seq<char>)>) -> bool {
    &&& f.itag as nat == uint_field_val(ps, "itag"@)
    &&& f.bitrate as nat == uint_field_val(ps, "bitrate"@)
    &&& lookup(ps, "url"@) == Some(f.url@)
    &&& lookup(ps, "type"@) matches Some(t) && mime_parts(t) matches Some(p) && f.extension@
        == p.1 && f.codec@ == p.2 && details_matches(f.details, ps, p.0)
}

impl Format {
    /// Splits a composite type field into major type, extension and
    /// codec; a missing delimiter is a decode failure naming `type`.
    pub fn parse_mime(s: &str) -> (r: Result<(String, String, String), Error>)
        ensures
            match mime_parts(s@) {
                Some(p) => r matches Ok(t) && t.0@ == p.0 && t.1@ == p.1 && t.2@ == p.2,
                None => is_decode_err(r, "type"@),
            },
    {
        proof {
            reveal_strlit("/");
            reveal_strlit(";");
            reveal_strlit("codecs=\"");
        }
        let n = s.unicode_len();
        let fs = match find_substr(s, "/") {
            Some(i) => i,
            None => {
                return Err(Error::decode("type"));
            },
        };
        proof {
            lemma_find_sub_first(s@, "/"@);
        }
        let major = s.substring_char(0, fs).to_owned();
        let rest = s.substring_char(fs + 1, n);
        let sc = match find_substr(rest, ";") {
            Some(i) => i,
            None => {
                return Err(Error::decode("type"));
            },
        };
        proof {
            lemma_find_sub_first(rest@, ";"@);
        }
        let ext = rest.substring_char(0, sc).to_owned();
        let clause = rest.substring_char(sc + 1, rest.unicode_len());
        let cd = match find_substr(clause, "codecs=\"") {
            Some(i) => i,
            None => {
                return Err(Error::decode("type"));
            },
        };
        proof {
            lemma_find_sub_first(clause@, "codecs=\""@);
        }
        let cs = cd + 8;
        let m = clause.unicode_len();
        if cs < m {
            let codec = clause.substring_char(cs, m - 1).to_owned();
            Ok((major, ext, codec))
        } else {
            Err(Error::decode("type"))
        }
    }

    /// Reads the detail fields that the major type token selects:
    /// `video` takes `fps`, `size` and `quality_label`; `audio` takes
    /// `audio_channels` and `audio_sample_rate`; any other token is a
    /// decode failure naming `type`.
    pub fn parse_details(format_type: &str, ps: &Vec<(String, String)>) -> (r: Result<
        FormatDetails,
        Error,
    >)
        ensures
            match details_field_err(ps.deep_view(), format_type@) {
                Some(f) => is_decode_err(r, f),
                None => r matches Ok(d) && details_matches(d, ps.deep_view(), format_type@),
            },
    {
        if str_eq(format_type, "video") {
            let fps64 = match uint_field(ps, "fps", 65535) {
                Ok(v) => v,
                Err(e) => {
                    return Err(e);
                },
            };
            let size = match string_field(ps, "size") {
                Ok(v) => v,
                Err(e) => {
                    return Err(e);
                },
            };
            let quality_label = match string_field(ps, "quality_label") {
                Ok(v) => v,
                Err(e) => {
                    return Err(e);
                },
            };
            Ok(FormatDetails::Video { fps: fps64 as u16, size, quality_label })
        } else if str_eq(format_type, "audio") {
            let audio_channels = match uint_field(ps, "audio_channels", 255) {
                Ok(v) => v,
                Err(e) => {
                    return Err(e);
                },
            };
            let audio_sample_rate = match uint_field(ps, "audio_sample_rate", 4294967295) {
                Ok(v) => v,
                Err(e) => {
                    return Err(e);
                },
            };
            Ok(
                FormatDetails::Audio {
                    audio_channels: audio_channels as u8,
                    audio_sample_rate: audio_sample_rate as u32,
                },
            )
        } else {
            Err(Error::decode("type"))
        }
    }

    /// Reads one format record: `itag`, `bitrate`, `url` and the
    /// composite `type` field, whose major type selects the details. The
    /// first missing or malformed field aborts with a decode failure
    /// naming it.
    pub fn parse_record(ps: &Vec<(String, String)>) -> (r: Result<Format, Error>)
        ensures
            match format_field_err(ps.deep_view()) {
                Some(f) => is_decode_err(r, f),
                None => r matches Ok(fm) && format_matches(fm, ps.deep_view()),
            },
    {
        let itag = match uint_field(ps, "itag", 4294967295) {
            Ok(v) => v,
            Err(e) => {
                return Err(e);
            },
        };
        let bitrate = match uint_field(ps, "bitrate", 4294967295) {
            Ok(v) => v,
            Err(e) => {
                return Err(e);
            },
        };
        let url = match string_field(ps, "url") {
            Ok(v) => v,
            Err(e) => {
                return Err(e);
            },
        };
        let t = match lookup_pairs(ps, "type") {
            Some(v) => v,
            None => {
                return Err(Error::decode("type"));
            },
        };
        let (format_type, extension, codec) = match Self::parse_mime(t.as_str()) {
            Ok(v) => v,
            Err(e) => {
                return Err(e);
            },
        };
        let details = match Self::parse_details(format_type.as_str(), ps) {
            Ok(v) => v,
            Err(e) => {
                return Err(e);
            },
        };
        Ok(
            Format {
                itag: itag as u32,
                bitrate: bitrate as u32,
                url,
                extension,
                codec,
                details,
            },
        )
    }

    /// Get the download interface for this format.
    pub fn download<'a>(&'a self) -> (r: crate::download::DownloadFormat<'a>)
        ensures
            r.format == self,
    {
        crate::download::DownloadFormat { format: self }
    }
}

/// The metadata request link for one video identifier.
pub fn info_url(id: &str) -> (r: String)
    ensures
        r@ == "https://www.youtube.com/get_video_info?video_id="@ + id@,
{
    let mut r = String::from_str("https://www.youtube.com/get_video_info?video_id=");
    r.append(id);
    r
}

/// The first missing or malformed part of the detailed video
/// information, in reading order; `None` when every part is present.
/// The keywords part is `None` only when the source field is present but
/// not an array of strings: an absent or null field has already become
/// an empty sequence.
pub open spec fn details_parts_err(
    channel_id: Option<Seq<char>>,
    video_id: Option<Seq<char>>,
    title: Option<Seq<char>>,
    author: Option<Seq<char>>,
    average_rating: Option<Seq<char>>,
    view_count: Option<Seq<char>>,
    keywords: Option<Seq<Seq<char>>>,
    short_description: Option<Seq<char>>,
) -> Option<Seq<char>> {
    if channel_id is None {
        Some("channelId"@)
    } else if video_id is None {
        Some("videoId"@)
    } else if title is None {
        Some("title"@)
    } else if author is None {
        Some("author"@)
    } else if average_rating is None {
        Some("averageRating"@)
    } else if !(view_count matches Some(t) && uint_ok(t, u64::MAX as nat)) {
        Some("viewCount"@)
    } else if keywords is None {
        Some("keywords"@)
    } else if short_description is None {
        Some("shortDescription"@)
    } else {
        None
    }
}

/// The string under `key` in a JSON object, when the object holds a
/// string there.
pub open spec fn string_entry_of(v: serde_json::Value, key: Seq<char>) -> Option<Seq<char>> {
    match entry_of(v, key) {
        Some(e) => str_of(e),
        None => None,
    }
}

/// The decimal notation of the `averageRating` entry, when the object
/// holds a number there.
pub open spec fn rating_part_of(v: serde_json::Value) -> Option<Seq<char>> {
    match entry_of(v, "averageRating"@) {
        Some(rv) => if num_of(rv) {
            Some(text_of(rv))
        } else {
            None
        },
        None => None,
    }
}

/// The characters of every element, when each one is a string; `None`
/// when any element is of another kind.
pub open spec fn all_strings_of(elems: Seq<serde_json::Value>) -> Option<Seq<Seq<char>>> {
    if forall|j: int| 0 <= j < elems.len() ==> str_of(#[trigger] elems[j]) is Some {
        Some(Seq::new(elems.len(), |j: int| str_of(elems[j])->Some_0))
    } else {
        None
    }
}

/// The keyword sequence a `videoDetails` object carries: empty when the
/// `keywords` entry is absent or null, its strings when it is an array
/// of strings, and `None` (malformed) otherwise.
pub open spec fn keywords_part_of(v: serde_json::Value) -> Option<Seq<Seq<char>>> {
    match entry_of(v, "keywords"@) {
        None => Some(Seq::<Seq<char>>::empty()),
        Some(kv) => if null_of(kv) {
            Some(Seq::<Seq<char>>::empty())
        } else {
            match arr_of(kv) {
                Some(elems) => all_strings_of(elems),
                None => None,
            }
        },
    }
}

/// The first missing or malformed detail field of a `videoDetails`
/// object, in reading order.
pub open spec fn details_doc_err(v: serde_json::Value) -> Option<Seq<char>> {
    details_parts_err(
        string_entry_of(v, "channelId"@),
        string_entry_of(v, "videoId"@),
        string_entry_of(v, "title"@),
        string_entry_of(v, "author"@),
        rating_part_of(v),
        string_entry_of(v, "viewCount"@),
        keywords_part_of(v),
        string_entry_of(v, "shortDescription"@),
    )
}

/// Holds when `d` carries exactly the detail fields that the
/// `videoDetails` object `v` holds.
pub open spec fn details_doc_matches(d: VideoDetails, v: serde_json::Value) -> bool {
    &&& Some(d.channel_id@) == string_entry_of(v, "channelId"@)
    &&& Some(d.video_id@) == string_entry_of(v, "videoId"@)
    &&& Some(d.title@) == string_entry_of(v, "title"@)
    &&& Some(d.author@) == string_entry_of(v, "author"@)
    &&& Some(d.average_rating@) == rating_part_of(v)
    &&& string_entry_of(v, "viewCount"@) matches Some(t) && d.view_count as nat == uint_val(t)
    &&& Some(d.keywords.deep_view()) == keywords_part_of(v)
    &&& Some(d.short_description@) == string_entry_of(v, "shortDescription"@)
}

impl VideoDetails {
    /// Assembles the detailed video information from its parts, each
    /// `None` where the source lacked or mangled it. The first missing
    /// part, in reading order, aborts with a decode failure naming the
    /// source field; `view_count` must also parse as an unsigned
    /// integer.
    pub fn from_parts(
        channel_id: Option<String>,
        video_id: Option<String>,
        title: Option<String>,
        author: Option<String>,
        average_rating: Option<String>,
        view_count: Option<String>,
        keywords: Option<Vec<String>>,
        short_description: Option<String>,
    ) -> (r: Result<VideoDetails, Error>)
        ensures
            match details_parts_err(
                channel_id.deep_view(),
                video_id.deep_view(),
                title.deep_view(),
                author.deep_view(),
                average_rating.deep_view(),
                view_count.deep_view(),
                keywords.deep_view(),
                short_description.deep_view(),
            ) {
                Some(f) => is_decode_err(r, f),
                None => r matches Ok(d) && {
                    &&& Some(d.channel_id@) == channel_id.deep_view()
                    &&& Some(d.video_id@) == video_id.deep_view()
                    &&& Some(d.title@) == title.deep_view()
                    &&& Some(d.author@) == author.deep_view()
                    &&& Some(d.average_rating@) == average_rating.deep_view()
                    &&& d.view_count as nat == uint_val(view_count.deep_view()->Some_0)
                    &&& Some(d.keywords.deep_view()) == keywords.deep_view()
                    &&& Some(d.short_description@) == short_description.deep_view()
                },
            },
    {
        let channel_id = match channel_id {
            Some(v) => v,
            None => {
                return Err(Error::decode("channelId"));
            },
        };
        let video_id = match video_id {
            Some(v) => v,
            None => {
                return Err(Error::decode("videoId"));
            },
        };
        let title = match title {
            Some(v) => v,
            None => {
                return Err(Error::decode("title"));
            },
        };
        let author = match author {
            Some(v) => v,
            None => {
                return Err(Error::decode("author"));
            },
        };
        let average_rating = match average_rating {
            Some(v) => v,
            None => {
                return Err(Error::decode("averageRating"));
            },
        };
        let view_count = match view_count {
            Some(t) => match parse_uint(t.as_str(), 18446744073709551615) {
                Some(n) => n,
                None => {
                    return Err(Error::decode("viewCount"));
                },
            },
            None => {
                return Err(Error::decode("viewCount"));
            },
        };
        let keywords = match keywords {
            Some(v) => v,
            None => {
                return Err(Error::decode("keywords"));
            },
        };
        let short_description = match short_description {
            Some(v) => v,
            None => {
                return Err(Error::decode("shortDescription"));
            },
        };
        Ok(
            VideoDetails {
                channel_id,
                author,
                video_id,
                title,
                keywords,
                average_rating,
                short_description,
                view_count,
            },
        )
    }

    /// Reads the detail fields out of a parsed `videoDetails` object and
    /// assembles them: the first missing or malformed field, in reading
    /// order, aborts with a decode failure naming it, and a success
    /// carries exactly the object's fields. Absent or null keywords
    /// default to an empty sequence, never an error.
    pub fn parse_value(v: &serde_json::Value) -> (r: Result<VideoDetails, Error>)
        ensures
            match details_doc_err(*v) {
                Some(f) => is_decode_err(r, f),
                None => r matches Ok(d) && details_doc_matches(d, *v),
            },
    {
        let channel_id = json_string_field(v, "channelId");
        let video_id = json_string_field(v, "videoId");
        let title = json_string_field(v, "title");
        let author = json_string_field(v, "author");
        let average_rating = match value_get(v, "averageRating") {
            Some(rv) => if value_is_number(rv) {
                Some(value_to_text(rv))
            } else {
                None
            },
            None => None,
        };
        proof {
            assert(average_rating.deep_view() == rating_part_of(*v));
        }
        let view_count = json_string_field(v, "viewCount");
        let keywords: Option<Vec<String>> = match value_get(v, "keywords") {
            None => {
                let kw: Vec<String> = Vec::new();
                proof {
                    assert(kw.deep_view() =~= Seq::<Seq<char>>::empty());
                }
                Some(kw)
            },
            Some(kv) => if value_is_null(kv) {
                let kw: Vec<String> = Vec::new();
                proof {
                    assert(kw.deep_view() =~= Seq::<Seq<char>>::empty());
                }
                Some(kw)
            } else {
                match value_as_array(kv) {
                    Some(arr) => collect_strings(arr),
                    None => None,
                }
            },
        };
        proof {
            assert(keywords.deep_view() == keywords_part_of(*v));
        }
        let short_description = json_string_field(v, "shortDescription");
        Self::from_parts(
            channel_id,
            video_id,
            title,
            author,
            average_rating,
            view_count,
            keywords,
            short_description,
        )
    }
}

/// The first decode failure over the format segments, in segment order:
/// a segment whose form encoding is rejected fails naming
/// `adaptive_fmts`; one whose record is missing or mangling a field
/// fails naming that field.
pub open spec fn formats_err(segs: Seq<Seq<char>>) -> Option<Seq<char>>
    decreases segs.len(),
{
    if segs.len() == 0 {
        None
    } else {
        match form_decode_of(segs[0]) {
            None => Some("adaptive_fmts"@),
            Some(ps) => match format_field_err(ps) {
                Some(f) => Some(f),
                None => formats_err(segs.drop_first()),
            },
        }
    }
}

/// What `VideoInfo::decode` returns on a body, staged as the decoder
/// runs: the outer form decoding, the `length_seconds` field, the
/// `adaptive_fmts` field split into segments, every segment's record,
/// the `player_response` JSON document, its `videoDetails` object, and
/// that object's fields. A success is owed exactly when every stage
/// passes, and then carries the parsed duration, one format per segment
/// in segment order, and the object's detail fields.
pub open spec fn decode_post(r: Result<VideoInfo, Error>, body: Seq<char>) -> bool {
    match form_decode_of(body) {
        None => is_decode_err(r, "body"@),
        Some(ps) => {
            if !uint_field_ok(ps, "length_seconds"@, u64::MAX as nat) {
                is_decode_err(r, "length_seconds"@)
            } else {
                match lookup(ps, "adaptive_fmts"@) {
                    None => is_decode_err(r, "adaptive_fmts"@),
                    Some(af) => {
                        let segs = split_commas(af);
                        match formats_err(segs) {
                            Some(f) => is_decode_err(r, f),
                            None => match lookup(ps, "player_response"@) {
                                None => is_decode_err(r, "player_response"@),
                                Some(pr) => match json_doc_of(pr) {
                                    None => is_decode_err(r, "player_response"@),
                                    Some(doc) => match entry_of(doc, "videoDetails"@) {
                                        None => is_decode_err(r, "videoDetails"@),
                                        Some(vd) => match details_doc_err(vd) {
                                            Some(f) => is_decode_err(r, f),
                                            None => {
                                                &&& r matches Ok(info)
                                                &&& info.length_seconds as nat == uint_field_val(
                                                    ps,
                                                    "length_seconds"@,
                                                )
                                                &&& info.formats@.len() == segs.len()
                                                &&& forall|i: int|
                                                    0 <= i < segs.len() ==> format_matches(
                                                        #[trigger] info.formats@[i],
                                                        form_decode_of(segs[i])->Some_0,
                                                    )
                                                &&& details_doc_matches(info.details, vd)
                                            },
                                        },
                                    },
                                },
                            },
                        }
                    },
                }
            }
        },
    }
}

impl VideoInfo {
    /// Turns one fetched metadata body into a typed `VideoInfo`,
    /// all-or-nothing: any failure aborts with a decode failure naming
    /// the offending field, and no partial value is returned.
    ///
    /// The body is one form-encoded record. `length_seconds` must parse
    /// as an unsigned integer; `adaptive_fmts` is split on commas into
    /// form-encoded segments, each decoded independently into one
    /// `Format`, kept in segment order, never reordered or deduplicated;
    /// `player_response` is a JSON document carried as a string, whose
    /// `videoDetails` object yields the `VideoDetails`.
    pub fn decode(body: &str) -> (r: Result<VideoInfo, Error>)
        ensures
            decode_post(r, body@),
    {
        let ps = match form_decode(body) {
            Some(v) => v,
            None => {
                return Err(Error::decode("body"));
            },
        };
        let length_seconds = match uint_field(&ps, "length_seconds", 18446744073709551615) {
            Ok(v) => v,
            Err(e) => {
                return Err(e);
            },
        };
        let af = match lookup_pairs(&ps, "adaptive_fmts") {
            Some(v) => v,
            None => {
                return Err(Error::decode("adaptive_fmts"));
            },
        };
        let segs = split_commas_exec(af.as_str());
        let ghost segsv = split_commas(af@);
        let mut formats: Vec<Format> = Vec::new();
        let n = segs.len();
        let mut i: usize = 0;
        proof {
            assert(segsv.skip(0) =~= segsv);
        }
        while i < n
            invariant
                i <= n,
                n == segs@.len(),
                segs.deep_view() == segsv,
                segsv.len() == n,
                formats@.len() == i,
                form_decode_of(body@) == Some(ps.deep_view()),
                uint_field_ok(ps.deep_view(), "length_seconds"@, u64::MAX as nat),
                lookup(ps.deep_view(), "adaptive_fmts"@) == Some(af@),
                segsv == split_commas(af@),
                formats_err(segsv) == formats_err(segsv.skip(i as int)),
                forall|j: int|
                    0 <= j < i ==> format_matches(
                        #[trigger] formats@[j],
                        form_decode_of(segsv[j])->Some_0,
                    ),
            decreases n - i,
        {
            proof {
                assert(segsv.skip(i as int)[0] == segsv[i as int]);
                assert(segs.deep_view()[i as int] == segs@[i as int]@);
            }
            let sp = match form_decode(segs[i].as_str()) {
                Some(v) => v,
                None => {
                    proof {
                        assert(formats_err(segsv.skip(i as int)) == Some("adaptive_fmts"@));
                    }
                    return Err(Error::decode("adaptive_fmts"));
                },
            };
            let f = match Format::parse_record(&sp) {
                Ok(v) => v,
                Err(e) => {
                    proof {
                        assert(formats_err(segsv.skip(i as int)) == format_field_err(
                            sp.deep_view(),
                        ));
                    }
                    return Err(e);
                },
            };
            formats.push(f);
            proof {
                assert(segsv.skip(i as int).drop_first() =~= segsv.skip(i + 1));
            }
            i += 1;
        }
        proof {
            assert(segsv.skip(n as int) =~= Seq::<Seq<char>>::empty());
        }
        let pr = match lookup_pairs(&ps, "player_response") {
            Some(v) => v,
            None => {
                return Err(Error::decode("player_response"));
            },
        };
        let doc = match parse_json_document(pr.as_str()) {
            Some(v) => v,
            None => {
                return Err(Error::decode("player_response"));
            },
        };
        let details = match value_get(&doc, "videoDetails") {
            Some(vd) => match VideoDetails::parse_value(vd) {
                Ok(v) => v,
                Err(e) => {
                    return Err(e);
                },
            },
            None => {
                return Err(Error::decode("videoDetails"));
            },
        };
        Ok(VideoInfo { length_seconds, formats, details })
    }
}

/// Reads the string under `key`, if the object holds one there.
fn json_string_field(v: &serde_json::Value, key: &str) -> (r: Option<String>)
    ensures
        r.deep_view() == string_entry_of(*v, key@),
{
    match value_get(v, key) {
        Some(f) => value_as_str(f),
        None => None,
    }
}

/// Reads every element as a string; one element of another kind rejects
/// the whole sequence.
fn collect_strings(arr: &Vec<serde_json::Value>) -> (r: Option<Vec<String>>)
    ensures
        match r {
            Some(out) => all_strings_of(arr@) == Some(out.deep_view()),
            None => all_strings_of(arr@) is None,
        },
{
    let n = arr.len();
    let mut out: Vec<String> = Vec::new();
    let mut i: usize = 0;
    while i < n
        invariant
            i <= n,
            n == arr@.len(),
            out@.len() == i,
            forall|j: int|
                0 <= j < i ==> str_of(#[trigger] arr@[j]) is Some && out.deep_view()[j] == str_of(
                    arr@[j],
                )->Some_0,
        decreases n - i,
    {
        let ghost out0 = out.deep_view();
        match value_as_str(&arr[i]) {
            Some(s) => {
                out.push(s);
                proof {
                    assert(out.deep_view() =~= out0.push(s@));
                }
            },
            None => {
                assert(str_of(arr@[i as int]) is None);
                return None;
            },
        }
        i += 1;
    }
    proof {
        assert(out.deep_view() =~= Seq::new(
            arr@.len(),
            |j: int| str_of(arr@[j])->Some_0,
        ));
    }
    Some(out)
}

} // verus!
