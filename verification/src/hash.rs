//! The namespace-agnostic cryptographic key hash.

use vstd::prelude::*;

verus! {

/// The 32-byte digest the tree addresses a logical key by. The digest is a
/// function of the key bytes alone: the same key always hashes the same way.
pub uninterp spec fn keyhash_of(key: Seq<u8>) -> Seq<u8>;

/// Relies on `jmt::KeyHash::with` with the SHA-256 hasher: hashes a raw
/// logical key into the tree's 32-byte addressing unit. The result depends
/// on the key bytes alone.
#[verifier::external_body]
pub(crate) fn key_hash_of(key: &Vec<u8>) -> (r: [u8; 32])
    ensures
        r@ == keyhash_of(key@),
{
    jmt::KeyHash::with::<sha2::Sha256>(key.as_slice()).0
}

} // verus!
