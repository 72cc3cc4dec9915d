//! The two boundary operations: plaintext to printable token and back.
//!
//! Encode: UTF-8 bytes, optionally DEFLATE-compressed, enciphered with
//! AES-128-ECB/PKCS#7 under the scrambled key, then base64. Decode is the
//! exact inverse, stage by stage, and reports the first stage that fails.

use vstd::prelude::*;

use crate::CryptoError;
use crate::cipher::aes_decrypt;
use crate::cipher::aes_encrypt;
use crate::cipher::decrypt_spec;
use crate::cipher::encrypt_spec;
use crate::codec::b64_decode;
use crate::codec::b64_decode_spec;
use crate::codec::b64_encode;
use crate::codec::b64_encode_spec;
use crate::compress::deflate_bytes;
use crate::compress::inflate_bytes;
use crate::compress::zlib_deflate_spec;
use crate::compress::zlib_inflate_spec;
use crate::scramble::get_aes_key_u8;
use crate::scramble::scramble_spec;
use crate::text::bytes_to_string;
use vstd::slice::slice_to_vec;

verus! {

use vstd::string::StringSliceAdditionalSpecFns;
use vstd::utf8::decode_utf8;
use vstd::utf8::encode_utf8;
use vstd::utf8::encode_utf8_decode_utf8;
use vstd::utf8::encode_utf8_valid_utf8;
use vstd::utf8::valid_utf8;

/// The byte message that is enciphered: the plaintext's UTF-8 bytes,
/// DEFLATE-compressed unless `no_zip` is set.
pub open spec fn message_spec(text: Seq<char>, no_zip: bool) -> Seq<u8> {
    if no_zip {
        encode_utf8(text)
    } else {
        zlib_deflate_spec(encode_utf8(text))
    }
}

/// What encoding returns: `Err(Key)` for a key of the wrong length, otherwise
/// base64 of the enciphered message under the scrambled key. The `Cipher`
/// branch records that a message too long to pad cannot be enciphered; no
/// machine-representable message reaches it.
pub open spec fn encode_spec(text: Seq<char>, key: Seq<u8>, no_zip: bool) -> Result<
    Seq<char>,
    CryptoError,
> {
    if key.len() != 16 {
        Err(CryptoError::Key)
    } else if message_spec(text, no_zip).len() + 16 > usize::MAX {
        Err(CryptoError::Cipher)
    } else {
        Ok(b64_encode_spec(encrypt_spec(scramble_spec(key), message_spec(text, no_zip))))
    }
}

/// What decoding returns, stage by stage: `Key` for a key of the wrong
/// length, `Decode` for malformed base64, `Cipher` for a ciphertext of bad
/// shape or bad padding, `Compression` for a malformed compressed stream, and
/// `Utf8` for bytes that are not UTF-8 — each if and only if that stage is
/// the first to fail.
pub open spec fn decode_spec(token: Seq<char>, key: Seq<u8>, no_zip: bool) -> Result<
    Seq<char>,
    CryptoError,
> {
    if key.len() != 16 {
        Err(CryptoError::Key)
    } else {
        match b64_decode_spec(token) {
            None => Err(CryptoError::Decode),
            Some(c) => match decrypt_spec(scramble_spec(key), c) {
                None => Err(CryptoError::Cipher),
                Some(m) => if no_zip {
                    if valid_utf8(m) {
                        Ok(decode_utf8(m))
                    } else {
                        Err(CryptoError::Utf8)
                    }
                } else {
                    match zlib_inflate_spec(m) {
                        None => Err(CryptoError::Compression),
                        Some(d) => if valid_utf8(d) {
                            Ok(decode_utf8(d))
                        } else {
                            Err(CryptoError::Utf8)
                        },
                    }
                },
            },
        }
    }
}

/// Turns a plaintext into a printable token: optional compression, then
/// AES-128-ECB/PKCS#7 under the scrambled key, then base64.
///
/// The result is exactly [`encode_spec`]; on success the second clause states
/// the round-trip law: decoding the returned token with the same key and flag
/// yields the original plaintext.
pub fn encode_data_aes(text: &str, password: &[u8], no_zip: bool) -> (r: Result<
    String,
    CryptoError,
>)
    ensures
        match r {
            Ok(tok) => encode_spec(text@, password@, no_zip) == Ok::<Seq<char>, CryptoError>(tok@)
                && decode_spec(tok@, password@, no_zip) == Ok::<Seq<char>, CryptoError>(text@),
            Err(e) => encode_spec(text@, password@, no_zip) == Err::<Seq<char>, CryptoError>(e),
        },
{
    if password.len() != 16 {
        return Err(CryptoError::Key);
    }
    let kv = get_aes_key_u8(slice_to_vec(password));
    let raw = slice_to_vec(text.as_bytes());
    proof {
        assert(raw@ == encode_utf8(text@));
    }
    let msg: Vec<u8> = if no_zip {
        raw
    } else {
        deflate_bytes(raw.as_slice())
    };
    proof {
        assert(msg@ == message_spec(text@, no_zip));
    }
    if msg.len() > usize::MAX - 16 {
        return Err(CryptoError::Cipher);
    }
    // The scrambled key of a 16-byte key is itself 16 bytes, so encryption
    // cannot fail here.
    let c = match aes_encrypt(msg.as_slice(), kv.as_slice()) {
        Ok(c) => c,
        Err(_) => unreached(),
    };
    let tok = b64_encode(c.as_slice());
    proof {
        encode_utf8_valid_utf8(text@);
        encode_utf8_decode_utf8(text@);
    }
    Ok(tok)
}

/// Turns a token back into the plaintext: base64, decipher under the
/// scrambled key, optional decompression, UTF-8.
///
/// The result is exactly [`decode_spec`]: success on precisely the tokens
/// whose every stage inverts, and otherwise the error of the first failing
/// stage. A tampered token is only ever noticed here when it breaks base64 or
/// padding; any other corruption silently yields garbage.
pub fn decode_data_aes(token: &str, password: &[u8], no_zip: bool) -> (r: Result<
    String,
    CryptoError,
>)
    ensures
        match r {
            Ok(s) => decode_spec(token@, password@, no_zip) == Ok::<Seq<char>, CryptoError>(s@),
            Err(e) => decode_spec(token@, password@, no_zip) == Err::<Seq<char>, CryptoError>(e),
        },
{
    if password.len() != 16 {
        return Err(CryptoError::Key);
    }
    let c = match b64_decode(token) {
        Some(v) => v,
        None => {
            return Err(CryptoError::Decode);
        },
    };
    let kv = get_aes_key_u8(slice_to_vec(password));
    let m = match aes_decrypt(c.as_slice(), kv.as_slice()) {
        Ok(m) => m,
        Err(_) => {
            return Err(CryptoError::Cipher);
        },
    };
    let plain: Vec<u8> = if no_zip {
        m
    } else {
        match inflate_bytes(m.as_slice()) {
            Some(d) => d,
            None => {
                return Err(CryptoError::Compression);
            },
        }
    };
    match bytes_to_string(plain) {
        Some(s) => Ok(s),
        None => Err(CryptoError::Utf8),
    }
}

} // verus!
