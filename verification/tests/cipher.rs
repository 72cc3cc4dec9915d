use aestoken::aes_decrypt;
use aestoken::aes_encrypt;
use aestoken::CryptoError;

const KEY: [u8; 16] = [
    0x00, 0x01, 0x02, 0x03, 0x04, 0x05, 0x06, 0x07, 0x08, 0x09, 0x0a, 0x0b, 0x0c, 0x0d, 0x0e,
    0x0f,
];

#[test]
fn ciphertext_length_law() {
    for (plain_len, cipher_len) in [(0, 16), (1, 16), (5, 16), (15, 16), (16, 32), (17, 32), (31, 32), (32, 48)] {
        let data = vec![0x61u8; plain_len];
        let c = aes_encrypt(&data, &KEY).unwrap();
        assert_eq!(c.len(), cipher_len, "plaintext length {}", plain_len);
    }
}

#[test]
fn padding_always_applied_on_aligned_input() {
    let data = [0u8; 16];
    let c = aes_encrypt(&data, &KEY).unwrap();
    assert_eq!(c.len(), 32);
}

#[test]
fn aes128_known_answer() {
    // FIPS 197, appendix C.1: AES-128 of 00112233445566778899aabbccddeeff
    // under key 000102030405060708090a0b0c0d0e0f.
    let plain: [u8; 16] = [
        0x00, 0x11, 0x22, 0x33, 0x44, 0x55, 0x66, 0x77, 0x88, 0x99, 0xaa, 0xbb, 0xcc, 0xdd,
        0xee, 0xff,
    ];
    let expected_first_block: [u8; 16] = [
        0x69, 0xc4, 0xe0, 0xd8, 0x6a, 0x7b, 0x04, 0x30, 0xd8, 0xcd, 0xb7, 0x80, 0x70, 0xb4,
        0xc5, 0x5a,
    ];
    let c = aes_encrypt(&plain, &KEY).unwrap();
    assert_eq!(c.len(), 32);
    assert_eq!(&c[0..16], &expected_first_block);
}

#[test]
fn encrypt_decrypt_round_trip() {
    for len in [0, 1, 15, 16, 17, 100] {
        let data: Vec<u8> = (0..len).map(|i| (i * 7 + 3) as u8).collect();
        let c = aes_encrypt(&data, &KEY).unwrap();
        let p = aes_decrypt(&c, &KEY).unwrap();
        assert_eq!(p, data);
    }
}

#[test]
fn wrong_key_length_is_reported() {
    assert_eq!(aes_encrypt(b"abc", &KEY[0..15]), Err(CryptoError::Key));
    assert_eq!(aes_decrypt(&[0u8; 16], &KEY[0..15]), Err(CryptoError::Key));
}

#[test]
fn misaligned_ciphertext_is_reported() {
    assert_eq!(aes_decrypt(&[0u8; 15], &KEY), Err(CryptoError::Cipher));
    assert_eq!(aes_decrypt(&[], &KEY), Err(CryptoError::Cipher));
}

#[test]
fn invalid_padding_is_reported() {
    // Build a ciphertext whose deciphered block ends in 0x00: no valid PKCS#7
    // padding can end in zero, so decryption must fail.
    let cipher = <aes::Aes128 as aes::cipher::KeyInit>::new_from_slice(&KEY).unwrap();
    let mut block = aes::Block::from([0u8; 16]);
    aes::cipher::BlockCipherEncrypt::encrypt_block(&cipher, &mut block);
    let c: Vec<u8> = block.as_slice().to_vec();
    assert_eq!(aes_decrypt(&c, &KEY), Err(CryptoError::Cipher));
}

#[test]
fn tampering_is_not_detected_but_never_restores_plaintext() {
    let data = b"sixteen byte msg";
    let c = aes_encrypt(data, &KEY).unwrap();
    for bit in [0usize, 7, 77, 200] {
        let mut tampered = c.clone();
        tampered[bit / 8] ^= 1 << (bit % 8);
        match aes_decrypt(&tampered, &KEY) {
            // Padding happened to break: the only failure the format can see.
            Err(e) => assert_eq!(e, CryptoError::Cipher),
            // Or garbage of a block-bounded length - never the original.
            Ok(p) => {
                assert!(tampered.len() - 16 <= p.len() && p.len() < tampered.len());
                assert_ne!(p.as_slice(), data);
            }
        }
    }
}
