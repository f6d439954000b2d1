//! Trusted boundary to the form-encoding decoder.
//!
//! A form-encoded record is `key=value` pairs joined by `&`,
//! percent-decoded. The decoding itself is done by an outside crate; its
//! result is named here and everything downstream is verified against
//! that name.

use vstd::prelude::*;

verus! {

/// What the form decoder yields on `s`: its key/value pairs in order, or
/// `None` when the input is rejected.
pub uninterp spec fn form_decode_of(s: Seq<char>) -> Option<Seq<(Seq<char>, Seq<char>)>>;

/// Decodes one form-encoded record into its key/value pairs, in order.
///
/// Relies on serde_urlencoded::from_str: deserialized to a vector of
/// string pairs, it yields every `key=value` pair of the input in input
/// order, percent-decoded.
#[verifier::external_body]
pub fn form_decode(s: &str) -> (r: Option<Vec<(String, String)>>)
    ensures
        r is Some <==> form_decode_of(s@) is Some,
        r matches Some(v) ==> form_decode_of(s@) == Some(v.deep_view()),
{
    match serde_urlencoded::from_str::<Vec<(String, String)>>(s) {
        Ok(v) => Some(v),
        Err(_) => None,
    }
}

} // verus!
