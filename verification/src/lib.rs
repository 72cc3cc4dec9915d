//! Confidentiality for short text payloads: a plaintext string is turned into
//! a printable token (optional DEFLATE compression, then AES-128-ECB with
//! PKCS#7 padding under a scrambled key, then base64) and back.
//!
//! The token format deliberately has no MAC, no IV and no version tag, and the
//! key scrambling is a weak deterministic mixing step, not a secure key
//! derivation function: these are intentional properties of the token format,
//! documented here rather than hidden.

use vstd::prelude::*;

mod cipher;
mod codec;
mod compress;
mod pipeline;
mod scramble;
mod text;

verus! {

pub use crate::cipher::aes_decrypt;
pub use crate::cipher::aes_encrypt;
pub use crate::pipeline::decode_data_aes;
pub use crate::pipeline::encode_data_aes;
pub use crate::scramble::get_aes_key_u8;

/// Failure classes of the pipelines, one variant per trigger condition.
#[derive(Clone, Copy, Debug, PartialEq, Eq, Structural)]
pub enum CryptoError {
    /// The supplied key is not exactly 16 bytes long.
    Key,
    /// The token is not valid standard base64.
    Decode,
    /// The ciphertext length is not a positive multiple of 16, or PKCS#7
    /// padding validation failed after decryption.
    Cipher,
    /// The decrypted bytes are not a valid DEFLATE (zlib) stream.
    Compression,
    /// The decompressed (or, without compression, decrypted) bytes are not
    /// valid UTF-8.
    Utf8,
}

} // verus!
