use aestoken::get_aes_key_u8;

#[test]
fn scrambling_is_deterministic() {
    let key: Vec<u8> = (0..16).map(|i| i * 3 + 1).collect();
    let a = get_aes_key_u8(key.clone());
    let b = get_aes_key_u8(key);
    assert_eq!(a, b);
}

#[test]
fn invalid_key_lengths_yield_empty_sentinel() {
    assert_eq!(get_aes_key_u8(vec![]), Vec::<u8>::new());
    assert_eq!(get_aes_key_u8(vec![1, 2, 3]), Vec::<u8>::new());
    assert_eq!(get_aes_key_u8(vec![0; 15]), Vec::<u8>::new());
    assert_eq!(get_aes_key_u8(vec![0; 17]), Vec::<u8>::new());
}

#[test]
fn scramble_exact_value() {
    // Index bytes 0, 1, 2, 3 overwrite positions 0..4 with the salt bytes
    // there; positions 4..16 pass through unchanged.
    let key: Vec<u8> = (0..16).collect();
    let scrambled = get_aes_key_u8(key);
    let expected: Vec<u8> = vec![
        0x8f, 0x2a, 0xd5, 0x1c, 4, 5, 6, 7, 8, 9, 10, 11, 12, 13, 14, 15,
    ];
    assert_eq!(scrambled, expected);
}

#[test]
fn colliding_index_bytes_apply_in_order() {
    // All four index bytes select position 0 (0, 16, 32, 48 are all 0 mod
    // 16); only that position changes.
    let key: Vec<u8> = vec![0, 16, 32, 48, 4, 5, 6, 7, 8, 9, 10, 11, 12, 13, 14, 15];
    let scrambled = get_aes_key_u8(key);
    let expected: Vec<u8> = vec![
        0x8f, 16, 32, 48, 4, 5, 6, 7, 8, 9, 10, 11, 12, 13, 14, 15,
    ];
    assert_eq!(scrambled, expected);
}
