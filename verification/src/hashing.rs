//! The digest that both protocol components are built on.
//!
//! Every public contract in this crate pins a digest down as `sha256_of` of
//! the hashed bytes; the digest itself is computed by the `sha2` crate behind
//! a single trusted wrapper.

use sha2::{Digest, Sha256};
use vstd::prelude::*;

verus! {

/// The 32-byte SHA-256 digest of a byte sequence, as an abstract function of
/// the input bytes alone.
pub uninterp spec fn sha256_of(data: Seq<u8>) -> Seq<u8>;

/// Relies on sha2::Sha256 (new / update / finalize): the digest is a pure
/// function of the input bytes, 32 bytes long.
#[verifier::external_body]
pub(crate) fn sha256(data: &[u8]) -> (digest: [u8; 32])
    ensures
        digest@ == sha256_of(data@),
{
    let mut hasher = Sha256::new();
    hasher.update(data);
    hasher.finalize().into()
}

/// Determinism of the digest: any two digests of the same bytes coincide.
pub proof fn lemma_digest_deterministic(d1: Seq<u8>, d2: Seq<u8>, data: Seq<u8>)
    requires
        d1 == sha256_of(data),
        d2 == sha256_of(data),
    ensures
        d1 == d2,
{
}

} // verus!
