//! AES-128 in ECB mode with PKCS#7 padding.
//!
//! Each 16-byte block is enciphered independently under the same key: no
//! chaining, no IV, and no integrity check. Tampering with a ciphertext is
//! therefore undetectable except when it happens to break the padding. The
//! AES block function itself comes from the `aes` crate; padding, block
//! chunking and padding validation are verified here.

use vstd::prelude::*;

use crate::CryptoError;
use aes::cipher::BlockCipherDecrypt;
use aes::cipher::BlockCipherEncrypt;
use aes::cipher::KeyInit;
use vstd::slice::slice_subrange;
use vstd::slice::slice_to_vec;

verus! {

pub uninterp spec fn aes128_enc_byte(key: Seq<u8>, block: Seq<u8>, i: int) -> u8;

pub uninterp spec fn aes128_dec_byte(key: Seq<u8>, block: Seq<u8>, i: int) -> u8;

/// The AES-128 encryption of one 16-byte block: an opaque permutation,
/// a function of the key and the block alone.
pub open spec fn aes_enc_block_spec(key: Seq<u8>, block: Seq<u8>) -> Seq<u8> {
    Seq::new(16, |i: int| aes128_enc_byte(key, block, i))
}

/// The AES-128 decryption of one 16-byte block: the inverse permutation of
/// [`aes_enc_block_spec`] under the same key.
pub open spec fn aes_dec_block_spec(key: Seq<u8>, block: Seq<u8>) -> Seq<u8> {
    Seq::new(16, |i: int| aes128_dec_byte(key, block, i))
}

/// Relies on `aes::Aes128` (`cipher::BlockCipherEncrypt::encrypt_block`): the
/// AES-128 block cipher, a deterministic function of key and block alone.
/// `BlockCipherDecrypt` is documented as its inverse, so decrypting the
/// result under the same key returns the block.
#[verifier::external_body]
fn aes128_encrypt_block(key: &[u8], block: &[u8]) -> (r: Vec<u8>)
    requires
        key@.len() == 16,
        block@.len() == 16,
    ensures
        r@ == aes_enc_block_spec(key@, block@),
        forall|i: int| 0 <= i < 16 ==> r@[i] == aes128_enc_byte(key@, block@, i),
        aes_dec_block_spec(key@, r@) == block@,
{
    let cipher = aes::Aes128::new_from_slice(key).unwrap();
    let mut b = aes::Block::try_from(block).unwrap();
    cipher.encrypt_block(&mut b);
    b.as_slice().to_vec()
}

/// Relies on `aes::Aes128` (`cipher::BlockCipherDecrypt::decrypt_block`): the
/// AES-128 inverse block cipher, a deterministic function of key and block
/// alone.
#[verifier::external_body]
fn aes128_decrypt_block(key: &[u8], block: &[u8]) -> (r: Vec<u8>)
    requires
        key@.len() == 16,
        block@.len() == 16,
    ensures
        r@ == aes_dec_block_spec(key@, block@),
        forall|i: int| 0 <= i < 16 ==> r@[i] == aes128_dec_byte(key@, block@, i),
{
    let cipher = aes::Aes128::new_from_slice(key).unwrap();
    let mut b = aes::Block::try_from(block).unwrap();
    cipher.decrypt_block(&mut b);
    b.as_slice().to_vec()
}

/// The PKCS#7 pad value for a message of length `n`: between 1 and 16, and
/// a full extra block of 16 when `n` is already a multiple of 16.
pub open spec fn pad_val(n: nat) -> nat {
    (16 - n % 16) as nat
}

/// PKCS#7 padding: append `pad_val(n)` bytes, each equal to `pad_val(n)`.
pub open spec fn pkcs7_pad(m: Seq<u8>) -> Seq<u8> {
    m + Seq::new(pad_val(m.len()), |i: int| pad_val(m.len()) as u8)
}

/// PKCS#7 unpadding: the last byte `n` must lie in `1..=16` and the final `n`
/// bytes must all equal `n`; those bytes are stripped. Anything else is a
/// padding failure.
pub open spec fn pkcs7_unpad(m: Seq<u8>) -> Option<Seq<u8>> {
    if m.len() == 0 {
        None
    } else {
        let n = m.last() as int;
        if 1 <= n && n <= 16 && n <= m.len() && (forall|i: int|
            m.len() - n <= i < m.len() ==> m[i] == m.last()) {
            Some(m.take(m.len() - n))
        } else {
            None
        }
    }
}

/// ECB encryption of a block-aligned message: each 16-byte block enciphered
/// independently under the same key, outputs concatenated in order.
pub open spec fn ecb_encrypt(key: Seq<u8>, m: Seq<u8>) -> Seq<u8>
    decreases m.len(),
{
    if m.len() < 16 {
        Seq::empty()
    } else {
        aes_enc_block_spec(key, m.take(16)) + ecb_encrypt(key, m.skip(16))
    }
}

/// ECB decryption of a block-aligned ciphertext, block by block.
pub open spec fn ecb_decrypt(key: Seq<u8>, c: Seq<u8>) -> Seq<u8>
    decreases c.len(),
{
    if c.len() < 16 {
        Seq::empty()
    } else {
        aes_dec_block_spec(key, c.take(16)) + ecb_decrypt(key, c.skip(16))
    }
}

/// What encryption returns for a 16-byte key: ECB over the padded message.
pub open spec fn encrypt_spec(key: Seq<u8>, m: Seq<u8>) -> Seq<u8> {
    ecb_encrypt(key, pkcs7_pad(m))
}

/// What decryption returns for a 16-byte key: `None` unless the ciphertext
/// length is a positive multiple of 16 and the deciphered bytes carry valid
/// PKCS#7 padding.
pub open spec fn decrypt_spec(key: Seq<u8>, c: Seq<u8>) -> Option<Seq<u8>> {
    if c.len() == 0 || c.len() % 16 != 0 {
        None
    } else {
        pkcs7_unpad(ecb_decrypt(key, c))
    }
}

proof fn lemma_ecb_enc_append_block(key: Seq<u8>, m: Seq<u8>, b: Seq<u8>)
    requires
        m.len() % 16 == 0,
        b.len() == 16,
    ensures
        ecb_encrypt(key, m + b) == ecb_encrypt(key, m) + aes_enc_block_spec(key, b),
    decreases m.len(),
{
    if m.len() == 0 {
        let e = Seq::<u8>::empty();
        assert(m + b =~= b);
        assert(b.take(16) =~= b);
        assert(b.skip(16) =~= e);
        assert(ecb_encrypt(key, e) == e);
        assert(ecb_encrypt(key, b) == aes_enc_block_spec(key, b) + e);
        assert(aes_enc_block_spec(key, b) + e =~= aes_enc_block_spec(key, b));
        assert(ecb_encrypt(key, m) + aes_enc_block_spec(key, b) =~= aes_enc_block_spec(key, b));
    } else {
        assert((m + b).take(16) =~= m.take(16));
        assert((m + b).skip(16) =~= m.skip(16) + b);
        lemma_ecb_enc_append_block(key, m.skip(16), b);
        assert(ecb_encrypt(key, m + b) =~= ecb_encrypt(key, m) + aes_enc_block_spec(key, b));
    }
}

proof fn lemma_ecb_dec_append_block(key: Seq<u8>, c: Seq<u8>, b: Seq<u8>)
    requires
        c.len() % 16 == 0,
        b.len() == 16,
    ensures
        ecb_decrypt(key, c + b) == ecb_decrypt(key, c) + aes_dec_block_spec(key, b),
    decreases c.len(),
{
    if c.len() == 0 {
        let e = Seq::<u8>::empty();
        assert(c + b =~= b);
        assert(b.take(16) =~= b);
        assert(b.skip(16) =~= e);
        assert(ecb_decrypt(key, e) == e);
        assert(ecb_decrypt(key, b) == aes_dec_block_spec(key, b) + e);
        assert(aes_dec_block_spec(key, b) + e =~= aes_dec_block_spec(key, b));
        assert(ecb_decrypt(key, c) + aes_dec_block_spec(key, b) =~= aes_dec_block_spec(key, b));
    } else {
        assert((c + b).take(16) =~= c.take(16));
        assert((c + b).skip(16) =~= c.skip(16) + b);
        lemma_ecb_dec_append_block(key, c.skip(16), b);
        assert(ecb_decrypt(key, c + b) =~= ecb_decrypt(key, c) + aes_dec_block_spec(key, b));
    }
}

proof fn lemma_ecb_enc_len(key: Seq<u8>, m: Seq<u8>)
    requires
        m.len() % 16 == 0,
    ensures
        ecb_encrypt(key, m).len() == m.len(),
    decreases m.len(),
{
    if m.len() >= 16 {
        lemma_ecb_enc_len(key, m.skip(16));
    }
}

proof fn lemma_ecb_dec_len(key: Seq<u8>, c: Seq<u8>)
    requires
        c.len() % 16 == 0,
    ensures
        ecb_decrypt(key, c).len() == c.len(),
    decreases c.len(),
{
    if c.len() >= 16 {
        lemma_ecb_dec_len(key, c.skip(16));
    }
}

/// Padding and unpadding are inverse: padding always succeeds, yields a
/// block-aligned result, and stripping it returns the original message.
pub proof fn lemma_pkcs7_unpad_pad(m: Seq<u8>)
    ensures
        pkcs7_pad(m).len() == m.len() + pad_val(m.len()),
        pkcs7_pad(m).len() % 16 == 0,
        pkcs7_unpad(pkcs7_pad(m)) == Some(m),
{
    let p = pkcs7_pad(m);
    let n = pad_val(m.len()) as int;
    assert(1 <= n && n <= 16);
    assert(p.len() == m.len() + n);
    assert(p.len() % 16 == 0);
    assert(p.last() == n as u8);
    assert(forall|i: int| p.len() - n <= i < p.len() ==> p[i] == p.last());
    assert(p.take(p.len() - n) =~= m);
}

/// Law: the ciphertext of a message of length `l` has length
/// `16 * (l / 16) + 16` — padding is always applied, so the output always
/// gains at least one byte and at most a full block.
pub proof fn lemma_ciphertext_len(key: Seq<u8>, m: Seq<u8>)
    ensures
        encrypt_spec(key, m).len() == 16 * (m.len() / 16) + 16,
{
    lemma_pkcs7_unpad_pad(m);
    lemma_ecb_enc_len(key, pkcs7_pad(m));
}

/// Law: a message whose length is already a multiple of 16 still grows by a
/// whole 16-byte padding block when enciphered.
pub proof fn lemma_padding_always_applied(key: Seq<u8>, m: Seq<u8>)
    requires
        m.len() % 16 == 0,
    ensures
        encrypt_spec(key, m).len() == m.len() + 16,
{
    lemma_ciphertext_len(key, m);
}

/// Law (the provable half of tamper non-detection): any block-aligned
/// ciphertext — a tampered one included — either fails padding validation or
/// decrypts to some byte sequence shorter than itself by 1 to 16 bytes. The
/// format itself never reports tampering; whether the result differs from the
/// original plaintext depends on the AES permutation, of which this library
/// assumes nothing beyond determinism and invertibility.
pub proof fn lemma_tamper_outcome(key: Seq<u8>, c: Seq<u8>)
    requires
        c.len() > 0,
        c.len() % 16 == 0,
    ensures
        match decrypt_spec(key, c) {
            None => true,
            Some(p) => c.len() - 16 <= p.len() < c.len(),
        },
{
    lemma_ecb_dec_len(key, c);
}

/// PKCS#7-pads a message: the result of [`pkcs7_pad`], computed.
fn pkcs7_pad_exec(data: &[u8]) -> (r: Vec<u8>)
    requires
        data@.len() + 16 <= usize::MAX,
    ensures
        r@ == pkcs7_pad(data@),
{
    proof {
        lemma_pkcs7_unpad_pad(data@);
    }
    let n: usize = 16 - data.len() % 16;
    let mut v = slice_to_vec(data);
    let mut i: usize = 0;
    while i < n
        invariant
            n == pad_val(data@.len()),
            i <= n,
            data@.len() + 16 <= usize::MAX,
            v@ == pkcs7_pad(data@).take(data@.len() + i),
            pkcs7_pad(data@).len() == data@.len() + n,
        decreases n - i,
    {
        v.push(n as u8);
        proof {
            assert(pkcs7_pad(data@).take(data@.len() + i + 1) =~= pkcs7_pad(data@).take(
                data@.len() + i,
            ).push(n as u8));
        }
        i += 1;
    }
    proof {
        assert(v@ =~= pkcs7_pad(data@));
    }
    v
}

/// Encrypts `data` under `key`: AES-128-ECB over the PKCS#7-padded bytes.
///
/// Succeeds exactly when the key is 16 bytes long; the ciphertext is then the
/// value of [`encrypt_spec`], and — because the block cipher is invertible —
/// decrypting it under the same key returns `data` exactly (the round trip).
pub fn aes_encrypt(data: &[u8], key: &[u8]) -> (r: Result<Vec<u8>, CryptoError>)
    requires
        data@.len() + 16 <= usize::MAX,
    ensures
        match r {
            Ok(c) => key@.len() == 16 && c@ == encrypt_spec(key@, data@) && decrypt_spec(
                key@,
                c@,
            ) == Some(data@),
            Err(e) => key@.len() != 16 && e == CryptoError::Key,
        },
{
    if key.len() != 16 {
        return Err(CryptoError::Key);
    }
    let padded = pkcs7_pad_exec(data);
    proof {
        lemma_pkcs7_unpad_pad(data@);
    }
    let ghost pm = padded@;
    let nblocks: usize = padded.len() / 16;
    proof {
        assert(16 * (nblocks as int) == pm.len());
    }
    let mut out: Vec<u8> = Vec::new();
    let mut i: usize = 0;
    while i < nblocks
        invariant
            key@.len() == 16,
            padded@ == pm,
            pm == pkcs7_pad(data@),
            pm.len() % 16 == 0,
            pm.len() <= usize::MAX,
            16 * (nblocks as int) == pm.len(),
            i <= nblocks,
            out@.len() == 16 * i,
            out@ == ecb_encrypt(key@, pm.take(16 * i)),
            ecb_decrypt(key@, out@) == pm.take(16 * i),
        decreases nblocks - i,
    {
        let block = slice_subrange(padded.as_slice(), 16 * i, 16 * i + 16);
        let mut eb = aes128_encrypt_block(key, block);
        proof {
            lemma_ecb_enc_append_block(key@, pm.take(16 * i), block@);
            lemma_ecb_dec_append_block(key@, out@, eb@);
            assert(pm.take(16 * (i + 1)) =~= pm.take(16 * i) + block@);
        }
        out.append(&mut eb);
        i += 1;
    }
    proof {
        assert(pm.take(16 * (nblocks as int)) =~= pm);
        assert(out@ == encrypt_spec(key@, data@));
        assert(out@.len() >= 16);
    }
    Ok(out)
}

/// Decrypts `data` under `key`: AES-128-ECB block by block, then strips the
/// validated PKCS#7 padding.
///
/// Fails with `Key` when the key is not 16 bytes, and with `Cipher` when the
/// ciphertext length is not a positive multiple of 16 or the deciphered bytes
/// do not end in valid padding; succeeds on exactly the remaining inputs,
/// returning the value of [`decrypt_spec`]. Nothing here detects tampering:
/// a corrupted ciphertext that still deciphers to valid-looking padding is
/// returned as garbage plaintext.
pub fn aes_decrypt(data: &[u8], key: &[u8]) -> (r: Result<Vec<u8>, CryptoError>)
    ensures
        match r {
            Ok(p) => key@.len() == 16 && decrypt_spec(key@, data@) == Some(p@),
            Err(e) => if key@.len() != 16 {
                e == CryptoError::Key
            } else {
                decrypt_spec(key@, data@) is None && e == CryptoError::Cipher
            },
        },
{
    if key.len() != 16 {
        return Err(CryptoError::Key);
    }
    if data.len() == 0 || data.len() % 16 != 0 {
        return Err(CryptoError::Cipher);
    }
    let nblocks: usize = data.len() / 16;
    proof {
        assert(16 * (nblocks as int) == data@.len());
    }
    let mut m: Vec<u8> = Vec::new();
    let mut i: usize = 0;
    while i < nblocks
        invariant
            key@.len() == 16,
            data@.len() > 0,
            data@.len() % 16 == 0,
            data@.len() <= usize::MAX,
            16 * (nblocks as int) == data@.len(),
            i <= nblocks,
            m@.len() == 16 * i,
            m@ == ecb_decrypt(key@, data@.take(16 * i)),
        decreases nblocks - i,
    {
        let block = slice_subrange(data, 16 * i, 16 * i + 16);
        let mut db = aes128_decrypt_block(key, block);
        proof {
            lemma_ecb_dec_append_block(key@, data@.take(16 * i), block@);
            assert(data@.take(16 * (i + 1)) =~= data@.take(16 * i) + block@);
        }
        m.append(&mut db);
        i += 1;
    }
    proof {
        assert(data@.take(16 * (nblocks as int)) =~= data@);
    }
    let n = m[m.len() - 1];
    if n < 1 || n > 16 {
        return Err(CryptoError::Cipher);
    }
    let start: usize = m.len() - (n as usize);
    let mut j: usize = start;
    while j < m.len()
        invariant
            key@.len() == 16,
            data@.len() > 0,
            data@.len() % 16 == 0,
            m@ == ecb_decrypt(key@, data@),
            m@.len() >= 16,
            1 <= n <= 16,
            n == m@.last(),
            start == m@.len() - n,
            start <= j <= m@.len(),
            forall|t: int| start <= t < j ==> m@[t] == n,
        decreases m@.len() - j,
    {
        if m[j] != n {
            return Err(CryptoError::Cipher);
        }
        j += 1;
    }
    m.truncate(start);
    Ok(m)
}

} // verus!
