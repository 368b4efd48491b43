//! Integrity check of downloaded blocks against their SHA-256 hash.

use vstd::prelude::*;

use crate::digest::{sha256_digest, sha256_spec};
use crate::text::{hex_lower, lemma_hex_lower_injective, to_hex_lower};

verus! {

/// Validator of P2P blocks.
pub struct BlockValidator;

/// `expected` is the lowercase hexadecimal SHA-256 digest of `data`.
pub open spec fn block_matches(data: Seq<u8>, expected: Seq<char>) -> bool {
    hex_lower(sha256_spec(data)) == expected
}

impl BlockValidator {
    /// Compares a computed digest, rendered in lowercase hexadecimal, with
    /// the expected hash text (case-sensitively).
    pub fn digest_matches(digest: &[u8], expected_hash: &str) -> (ok: bool)
        ensures
            ok == (hex_lower(digest@) == expected_hash@),
    {
        let calculated = to_hex_lower(digest);
        let expected = expected_hash.to_owned();
        calculated == expected
    }

    /// The hash text of a block: its SHA-256 digest in lowercase
    /// hexadecimal.
    pub fn block_hash(data: &[u8]) -> (hash: String)
        ensures
            hash@ == hex_lower(sha256_spec(data@)),
    {
        let digest = sha256_digest(data);
        to_hex_lower(digest.as_slice())
    }

    /// Checks the integrity of a downloaded block: true exactly when
    /// `expected_hash` is the lowercase hex SHA-256 digest of `data`.
    pub fn verify_block(data: &[u8], expected_hash: &str) -> (ok: bool)
        ensures
            ok == block_matches(data@, expected_hash@),
    {
        let digest = sha256_digest(data);
        Self::digest_matches(digest.as_slice(), expected_hash)
    }
}

/// A block is accepted against the hash computed from its own bytes.
pub proof fn law_block_matches_own_hash(data: Seq<u8>)
    ensures
        block_matches(data, hex_lower(sha256_spec(data))),
{
}

/// At most one hash text is accepted for a block: two accepted hashes
/// of the same data are equal.
pub proof fn law_block_hash_unique(data: Seq<u8>, h1: Seq<char>, h2: Seq<char>)
    requires
        block_matches(data, h1),
        block_matches(data, h2),
    ensures
        h1 == h2,
{
}

/// Blocks with different digests never accept the same hash text.
pub proof fn law_distinct_digests_distinct_hashes(a: Seq<u8>, b: Seq<u8>, h: Seq<char>)
    requires
        block_matches(a, h),
        block_matches(b, h),
    ensures
        sha256_spec(a) == sha256_spec(b),
{
    lemma_hex_lower_injective(sha256_spec(a), sha256_spec(b));
}

} // verus!
