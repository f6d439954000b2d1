//! The error taxonomy of the library.
//!
//! Every component surfaces errors unchanged to its caller; nothing here
//! retries, substitutes defaults or suppresses a failure.

use vstd::prelude::*;

verus! {

/// One error of the resolution or download pipeline.
#[derive(Debug, Clone)]
pub enum Error {
    /// The input reference string matches no recognized shape.
    ReferenceError,
    /// A response came back with the given non-200 status.
    ConnectionError(u16),
    /// A required header is absent or not numeric.
    ProtocolError,
    /// A metadata field is missing or malformed; the payload names it.
    DecodeError(String),
    /// A local read or write failed.
    IOError,
}

/// Holds when `r` is exactly the decode failure naming field `field`.
pub open spec fn is_decode_err<T>(r: Result<T, Error>, field: Seq<char>) -> bool {
    &&& r matches Err(e)
    &&& e matches Error::DecodeError(f) && f@ == field
}

impl Error {
    /// The decode failure naming field `field`.
    pub fn decode(field: &str) -> (e: Error)
        ensures
            e matches Error::DecodeError(f) && f@ == field@,
    {
        Error::DecodeError(field.to_owned())
    }
}

} // verus!
