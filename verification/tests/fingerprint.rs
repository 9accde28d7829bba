use everest_sync::download::sync_hash_file;
use everest_sync::fileutil::hash_file;
use everest_sync::fingerprint::{has_fingerprint, hex_string, ContentHasher};

#[test]
fn hex_string_pads_to_sixteen_digits() {
    assert_eq!(hex_string(0), "0000000000000000");
    assert_eq!(hex_string(0xf437bf0515368130), "f437bf0515368130");
    assert_eq!(hex_string(u64::MAX), "ffffffffffffffff");
    assert_eq!(hex_string(0xABCDEF), "0000000000abcdef");
    assert_eq!(hex_string(0x0123456789abcdef), "0123456789abcdef");
}

#[test]
fn empty_input_has_the_known_xxh64_fingerprint() {
    let hasher = ContentHasher::new();
    assert_eq!(hasher.digest(), 0xef46db3751d8e999);
    assert_eq!(hasher.fingerprint(), "ef46db3751d8e999");
    assert_eq!(hash_file(b""), "ef46db3751d8e999");
}

#[test]
fn known_input_has_the_known_xxh64_fingerprint() {
    assert_eq!(hash_file(b"abc"), "44bc2cf5ad770999");
    assert_eq!(sync_hash_file(b"abc"), "44bc2cf5ad770999");
}

#[test]
fn equal_inputs_have_equal_fingerprints() {
    let a = hash_file(b"the same bytes");
    let b = hash_file(b"the same bytes");
    assert_eq!(a, b);
    assert_ne!(a, hash_file(b"the same bytes."));
    assert_eq!(a.len(), 16);
    assert!(a.chars().all(|c| c.is_ascii_digit() || ('a'..='f').contains(&c)));
}

#[test]
fn chunked_input_hashes_like_whole_input() {
    let data: Vec<u8> = (0..10_000u32).map(|i| (i % 251) as u8).collect();
    let mut whole = ContentHasher::new();
    whole.update(&data);
    let mut chunked = ContentHasher::new();
    for chunk in data.chunks(97) {
        chunked.update(chunk);
    }
    assert_eq!(whole.fingerprint(), chunked.fingerprint());
    assert_eq!(whole.digest(), xxhash_rust::xxh64::xxh64(&data, 0));
}

#[test]
fn file_hashing_in_chunks_agrees_with_one_pass() {
    for len in [0usize, 1, 31, 32, 33, 8191, 8192, 8193, 16384, 20_000] {
        let data: Vec<u8> = (0..len).map(|i| (i * 7 % 256) as u8).collect();
        let expected = format!("{:016x}", xxhash_rust::xxh64::xxh64(&data, 0));
        assert_eq!(hash_file(&data), expected);
        assert_eq!(sync_hash_file(&data), expected);
    }
}

#[test]
fn fingerprints_are_compared_in_lower_case() {
    let list = vec!["F437BF0515368130".to_string(), "aaaa".to_string()];
    assert!(has_fingerprint(&list, "f437bf0515368130"));
    assert!(has_fingerprint(&list, "AAAA"));
    assert!(has_fingerprint(&list, "aAaA"));
}

#[test]
fn fingerprints_match_only_as_a_whole() {
    let list = vec!["f437bf0515368130".to_string()];
    assert!(!has_fingerprint(&list, "f437bf05"));
    assert!(!has_fingerprint(&list, "f437bf05153681300"));
    assert!(!has_fingerprint(&list, ""));
    assert!(!has_fingerprint(&Vec::new(), "f437bf0515368130"));
}
