//! Turning decrypted bytes back into text.
//!
//! UTF-8 itself is fully specified in `vstd::utf8`; the one trusted item here
//! gives `String::from_utf8` its contract in those terms.

use vstd::prelude::*;

verus! {

use vstd::utf8::decode_utf8;
use vstd::utf8::valid_utf8;

/// Relies on `String::from_utf8`: succeeds exactly on valid UTF-8, and the
/// returned string consists of the characters those bytes encode.
#[verifier::external_body]
pub(crate) fn bytes_to_string(v: Vec<u8>) -> (r: Option<String>)
    ensures
        match r {
            Some(s) => valid_utf8(v@) && s@ == decode_utf8(v@),
            None => !valid_utf8(v@),
        },
{
    match String::from_utf8(v) {
        Ok(s) => Some(s),
        Err(_) => None,
    }
}

} // verus!
