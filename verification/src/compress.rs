//! The optional compression stage: DEFLATE in a zlib wrapper, at the default
//! balanced level, through the `flate2` crate.
//!
//! The compressed form is named rather than restated; what the contracts pin
//! down is that inflating the compressed form returns the original bytes, and
//! that a malformed stream is reported instead of yielding bytes.

use vstd::prelude::*;

use std::io::Read;
use std::io::Write;

verus! {

pub uninterp spec fn zlib_deflate_spec(data: Seq<u8>) -> Seq<u8>;

pub uninterp spec fn zlib_inflate_spec(data: Seq<u8>) -> Option<Seq<u8>>;

/// Relies on `flate2::write::ZlibEncoder` at `Compression::default()`: a
/// deterministic function of the input bytes alone; inflating its output
/// returns the input.
#[verifier::external_body]
pub(crate) fn deflate_bytes(data: &[u8]) -> (r: Vec<u8>)
    ensures
        r@ == zlib_deflate_spec(data@),
        zlib_inflate_spec(r@) == Some(data@),
{
    let mut e = flate2::write::ZlibEncoder::new(Vec::new(), flate2::Compression::default());
    e.write_all(data).unwrap();
    e.finish().unwrap()
}

/// Relies on `flate2::read::ZlibDecoder`: inflates a well-formed zlib stream
/// to the bytes it compresses, and reports a malformed stream as an error.
#[verifier::external_body]
pub(crate) fn inflate_bytes(data: &[u8]) -> (r: Option<Vec<u8>>)
    ensures
        match r {
            Some(v) => zlib_inflate_spec(data@) == Some(v@),
            None => zlib_inflate_spec(data@) is None,
        },
{
    let mut z = flate2::read::ZlibDecoder::new(data);
    let mut out = Vec::new();
    match z.read_to_end(&mut out) {
        Ok(_) => Some(out),
        Err(_) => None,
    }
}

} // verus!
