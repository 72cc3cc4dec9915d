//! Key scrambling: a weak, deterministic mixing of the caller's 16-byte key
//! with a compiled-in salt.
//!
//! This is explicitly *not* a secure key-derivation function: at most four
//! byte positions of the key are overwritten with the salt bytes at the same
//! positions, and the remaining bytes pass through unchanged. It is part of
//! the token format and must never be mistaken for real key derivation.

use vstd::prelude::*;

verus! {

/// The compiled-in 16-byte salt. It is a fixed secret of the token format;
/// every process uses the same value, so scrambling is reproducible.
pub open spec fn salt_spec() -> Seq<u8> {
    seq![
        0x8fu8, 0x2au8, 0xd5u8, 0x1cu8, 0x63u8, 0xb0u8, 0x47u8, 0xe9u8,
        0x1bu8, 0x7eu8, 0xa4u8, 0x0du8, 0xc8u8, 0x52u8, 0x96u8, 0x33u8,
    ]
}

/// The salt as a vector, byte for byte the value of [`salt_spec`].
fn salt_bytes() -> (r: Vec<u8>)
    ensures
        r@ == salt_spec(),
{
    let mut v: Vec<u8> = Vec::new();
    v.push(0x8f);
    v.push(0x2a);
    v.push(0xd5);
    v.push(0x1c);
    v.push(0x63);
    v.push(0xb0);
    v.push(0x47);
    v.push(0xe9);
    v.push(0x1b);
    v.push(0x7e);
    v.push(0xa4);
    v.push(0x0d);
    v.push(0xc8);
    v.push(0x52);
    v.push(0x96);
    v.push(0x33);
    proof {
        assert(v@ =~= salt_spec());
    }
    v
}

/// One scrambling step for index byte `x`: position `x % 16` of the key is
/// overwritten with the salt byte at that position.
pub open spec fn scramble_step(k: Seq<u8>, x: u8) -> Seq<u8> {
    k.update(x as int % 16, salt_spec()[x as int % 16])
}

/// What scrambling returns: the empty sentinel for a key that is not exactly
/// 16 bytes; otherwise the four index bytes `key[0..4]` of the *original* key
/// are applied strictly in order, so a later step overwrites an earlier one
/// when their positions collide.
pub open spec fn scramble_spec(key: Seq<u8>) -> Seq<u8> {
    if key.len() != 16 {
        Seq::empty()
    } else {
        scramble_step(
            scramble_step(scramble_step(scramble_step(key, key[0]), key[1]), key[2]),
            key[3],
        )
    }
}

/// Scrambles a cipher key with the compiled-in salt.
///
/// A key of any length other than 16 yields an empty vector: the sentinel for
/// an unusable key, which callers must treat as an error, never as a valid
/// zero-length key. This mixing is deterministic and weak by design; see the
/// module documentation.
pub fn get_aes_key_u8(key: Vec<u8>) -> (r: Vec<u8>)
    ensures
        r@ == scramble_spec(key@),
        key@.len() != 16 ==> r@ == Seq::<u8>::empty(),
        key@.len() == 16 ==> r@.len() == 16,
{
    if key.len() != 16 {
        let empty: Vec<u8> = Vec::new();
        proof {
            assert(empty@ =~= Seq::<u8>::empty());
        }
        return empty;
    }
    let i0 = key[0];
    let i1 = key[1];
    let i2 = key[2];
    let i3 = key[3];
    let salt = salt_bytes();
    let mut k = key;
    let p0: usize = (i0 as usize) % 16;
    k[p0] = salt[p0];
    let p1: usize = (i1 as usize) % 16;
    k[p1] = salt[p1];
    let p2: usize = (i2 as usize) % 16;
    k[p2] = salt[p2];
    let p3: usize = (i3 as usize) % 16;
    k[p3] = salt[p3];
    k
}

/// Law: scrambling is pure — it depends on the key and the compiled-in salt
/// alone, so identical keys always scramble to identical results.
pub proof fn lemma_scramble_deterministic(k1: Seq<u8>, k2: Seq<u8>)
    requires
        k1 == k2,
    ensures
        scramble_spec(k1) == scramble_spec(k2),
{
}

/// Law: every key whose length is not exactly 16 — the empty key included —
/// scrambles to the empty sentinel.
pub proof fn lemma_scramble_invalid_key(k: Seq<u8>)
    requires
        k.len() != 16,
    ensures
        scramble_spec(k) == Seq::<u8>::empty(),
{
}

} // verus!
