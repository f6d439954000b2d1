//! A self-describing record for one classic format profile.

use vstd::prelude::*;

verus! {

/// One classic format profile: a fixed combination of container and
/// encodings under one `itag`.
#[derive(Default, Clone)]
pub struct Format {
    pub itag: i32,
    pub audio_bitrate: i32,
    pub extension: &'static str,
    pub resolution: &'static str,
    pub video_encoding: &'static str,
    pub audio_encoding: &'static str,
}

/// Builds the classic `itag` 5 profile, a sample of the record's shape.
pub fn what() {
    Format {
        itag: 5,
        audio_bitrate: 64,
        extension: "flv",
        resolution: "240p",
        video_encoding: "Sorenson H.283",
        audio_encoding: "mp3",
    };
}

} // verus!
