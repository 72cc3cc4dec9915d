//! Base64 transcoding: the printable boundary form of the system.
//!
//! The standard alphabet with `=` padding is used, through the `base64`
//! crate. Encoding is named rather than restated; what the contracts pin down
//! is that decoding the encoded form returns the original bytes, and that
//! malformed input is rejected.

use vstd::prelude::*;

use base64::Engine;

verus! {

pub uninterp spec fn b64_encode_spec(data: Seq<u8>) -> Seq<char>;

pub uninterp spec fn b64_decode_spec(s: Seq<char>) -> Option<Seq<u8>>;

/// Relies on `base64::engine::general_purpose::STANDARD.encode`: standard
/// alphabet with `=` padding, a function of the input bytes alone; decoding
/// the result with the same engine returns the input.
#[verifier::external_body]
pub(crate) fn b64_encode(data: &[u8]) -> (r: String)
    ensures
        r@ == b64_encode_spec(data@),
        b64_decode_spec(r@) == Some(data@),
{
    base64::engine::general_purpose::STANDARD.encode(data)
}

/// Relies on `base64::engine::general_purpose::STANDARD.decode`: recovers the
/// bytes a standard-alphabet base64 string encodes, and rejects any malformed
/// input instead of returning bytes.
#[verifier::external_body]
pub(crate) fn b64_decode(s: &str) -> (r: Option<Vec<u8>>)
    ensures
        match r {
            Some(v) => b64_decode_spec(s@) == Some(v@),
            None => b64_decode_spec(s@) is None,
        },
{
    match base64::engine::general_purpose::STANDARD.decode(s) {
        Ok(v) => Some(v),
        Err(_) => None,
    }
}

} // verus!
