//! Resolution of download metadata for a hosted video, and a verified
//! download engine: an identifier extractor, a layered metadata decoder
//! that turns one multiply-encoded text blob into a typed catalog of
//! formats, and a chunk-copy engine with strict header validation.

pub mod download;
pub mod errors;
pub mod form;
pub mod format;
pub mod json;
pub mod text;
pub mod video_info;
