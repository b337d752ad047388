use language_unpack::hash::{
    do_hash, hash_bytes, xxhash32_custom, xxhash32_rotl, xxhash32_round, PRIME32_1, PRIME32_2,
};

#[test]
fn hashes_correctly() {
    assert_eq!(0x887AE0B0, xxhash32_custom(""));
    assert_eq!(0x9AD6310D, xxhash32_custom("hello"));
}

#[test]
fn hash_of_bytes_agrees_with_hash_of_text() {
    assert_eq!(hash_bytes(b""), 0x887AE0B0);
    assert_eq!(hash_bytes(b"hello"), 0x9AD6310D);
    assert_eq!(hash_bytes("Grüße".as_bytes()), xxhash32_custom("Grüße"));
    assert_eq!(xxhash32_custom("Grüße"), 0xB7AFA61C);
}

#[test]
fn eight_repeats_are_pairwise_equal() {
    for input in ["", "hello", "Wp0001", "0123456789abcdef0123456789abcdefXYZ12"] {
        let mut results = Vec::new();
        for _ in 0..8 {
            results.push(xxhash32_custom(input));
        }
        for a in 0..8 {
            for b in 0..8 {
                assert_eq!(results[a], results[b]);
            }
        }
    }
}

#[test]
fn sixteen_bytes_do_not_go_through_the_lanes() {
    let long = b"0123456789abcdefg";
    let prefix = &long[..16];
    assert_eq!(hash_bytes(prefix), 0x51E50B89);
    assert_eq!(hash_bytes(long), 0x4AE7B09E);
    // What the seventeen bytes would hash to if they were folded into the
    // fixed start as the sixteen are.
    assert_ne!(hash_bytes(long), 0x04986762);
}

#[test]
fn lengths_around_a_stripe() {
    assert_eq!(hash_bytes(&[b'a'; 15]), 0xC15CDCBA);
    assert_eq!(hash_bytes(&[b'a'; 16]), 0x93B2CEFE);
    assert_eq!(hash_bytes(&[b'a'; 17]), 0xE7F3468A);
    assert_eq!(hash_bytes(&[b'a'; 31]), 0xCEE4B21C);
    assert_eq!(hash_bytes(&[b'a'; 32]), 0x0A789DA7);
    assert_eq!(hash_bytes(&[b'a'; 33]), 0xC7FDCF14);
}

#[test]
fn tails_of_words_and_bytes() {
    assert_eq!(xxhash32_custom("abc"), 0xE90C9B4A);
    assert_eq!(xxhash32_custom("abcd"), 0x67CF3265);
    assert_eq!(xxhash32_custom("abcde"), 0x23F62A70);
    assert_eq!(xxhash32_custom("The quick brown fox jumps over the lazy dog"), 0x6A19A445);
    assert_eq!(xxhash32_custom("0123456789abcdef0123456789abcdef"), 0xFEC90234);
    assert_eq!(xxhash32_custom("0123456789abcdef0123456789abcdefXYZ12"), 0x9A6C09C9);
}

#[test]
fn words_are_read_least_significant_byte_first() {
    // The same four bytes in another order are another word.
    assert_ne!(hash_bytes(&[1, 2, 3, 4]), hash_bytes(&[4, 3, 2, 1]));
    assert_eq!(hash_bytes(b"abcd"), 0x67CF3265);
}

#[test]
fn rotation_moves_the_high_bits_to_the_low_end() {
    assert_eq!(xxhash32_rotl(0x80000001, 1), 0x00000003);
    assert_eq!(xxhash32_rotl(1, 31), 0x80000000);
    assert_eq!(xxhash32_rotl(0x12345678, 13), 0x8ACF0246);
}

#[test]
fn round_wraps_around() {
    assert_eq!(xxhash32_round(0, 0), 0);
    assert_eq!(xxhash32_round(1, 1), 0x7D2EE7AD);
    assert_eq!(xxhash32_round(0x2557311B, 0x33323130), 0xD95DEB21);
    assert_eq!(PRIME32_1, 0x9E3779B1);
    assert_eq!(PRIME32_2, 0x85EBCA77);
}

#[test]
fn search_hashes_as_the_library_does() {
    assert_eq!(do_hash("hello"), 0x9AD6310D);
    assert_eq!(do_hash("Wp0001"), xxhash32_custom("Wp0001"));
}
