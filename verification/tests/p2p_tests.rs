use apus_core::p2p::BlockValidator;
use sha2::{Digest, Sha256};

fn hex_of(data: &[u8]) -> String {
    format!("{:x}", Sha256::digest(data))
}

#[test]
fn verify_block_accepts_own_hash() {
    let data = b"AerOS_APUS_Update_Block_#1337".to_vec();
    let hash = hex_of(&data);
    assert!(BlockValidator::verify_block(&data, &hash));
}

#[test]
fn verify_block_known_vector() {
    assert!(BlockValidator::verify_block(
        b"abc",
        "ba7816bf8f01cfea414140de5dae2223b00361a396177a9cb410ff61f20015ad"
    ));
    assert!(BlockValidator::verify_block(
        b"",
        "e3b0c44298fc1c149afbf4c8996fb92427ae41e4649b934ca495991b7852b855"
    ));
}

#[test]
fn verify_block_rejects_other_hashes() {
    let data = b"abc";
    assert!(!BlockValidator::verify_block(
        data,
        "BA7816BF8F01CFEA414140DE5DAE2223B00361A396177A9CB410FF61F20015AD"
    ));
    assert!(!BlockValidator::verify_block(data, ""));
    assert!(!BlockValidator::verify_block(b"abd", &hex_of(b"abc")));
    // the raw bytes themselves are not their hash
    assert!(!BlockValidator::verify_block(b"abc", "616263"));
}

#[test]
fn digest_matches_renders_lowercase_hex() {
    assert!(BlockValidator::digest_matches(&[0x00, 0xff, 0x0a], "00ff0a"));
    assert!(!BlockValidator::digest_matches(&[0x00, 0xff, 0x0a], "00FF0A"));
    assert!(!BlockValidator::digest_matches(&[0x00, 0xff, 0x0a], "0ff0a"));
    assert!(BlockValidator::digest_matches(&[], ""));
}

#[test]
fn block_hash_is_lowercase_hex_sha256() {
    assert_eq!(
        BlockValidator::block_hash(b"abc"),
        "ba7816bf8f01cfea414140de5dae2223b00361a396177a9cb410ff61f20015ad"
    );
    let data = b"AerOS_APUS_Update_Block_#1337";
    let h = BlockValidator::block_hash(data);
    assert_eq!(h, hex_of(data));
    assert!(BlockValidator::verify_block(data, &h));
}
