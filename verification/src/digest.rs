//! The SHA-256 digest, computed by the `sha2` crate.

use vstd::prelude::*;

verus! {

/// The SHA-256 digest of `data`, as the `sha2` crate computes it.
pub uninterp spec fn sha256_spec(data: Seq<u8>) -> Seq<u8>;

/// Calls `sha2::Sha256::digest` (through the `sha2::Digest` trait) on `data`.
/// Trusted: the result is `sha256_spec(data)`, a function of the input bytes
/// alone, and it is 32 bytes long (the `OutputSize` of `Sha256` is `U32`).
/// Nothing else is claimed of the hash function.
#[verifier::external_body]
pub(crate) fn sha256_digest(data: &[u8]) -> (out: Vec<u8>)
    ensures
        out@ == sha256_spec(data@),
        out@.len() == 32,
{
    <sha2::Sha256 as sha2::Digest>::digest(data).to_vec()
}

} // verus!
