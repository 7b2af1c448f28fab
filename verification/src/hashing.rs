//! The digest that names a transaction.

use vstd::prelude::*;

verus! {

/// The 256-bit BLAKE2b digest of `data`, as `sp_core::hashing::blake2_256`
/// computes it.
pub uninterp spec fn blake2_256_digest(data: Seq<u8>) -> [u8; 32];

/// Calls `sp_core::hashing::blake2_256`. Trusted: the result is the digest
/// of the bytes given, a function of those bytes alone.
#[verifier::external_body]
fn blake2_256(data: &[u8]) -> (digest: [u8; 32])
    ensures
        digest == blake2_256_digest(data@),
{
    sp_core::hashing::blake2_256(data)
}

/// The hash of a transaction, from its canonical encoding.
pub fn transaction_hash(encoded: &[u8]) -> (hash: [u8; 32])
    ensures
        hash == blake2_256_digest(encoded@),
{
    blake2_256(encoded)
}

} // verus!
