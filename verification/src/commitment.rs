//! Evidence commitment: a salted, non-revealing commitment to evidence
//! bytes, with a public length-validity flag.
//!
//! The committing party publishes `(evidence_hash, commitment, valid_length)`
//! and can later open the commitment by revealing the evidence hash and the
//! salt; the evidence hash doubles as the public key that links an
//! attestation back to the committed evidence.

use crate::hashing::{sha256, sha256_of};
use vstd::prelude::*;

verus! {

/// Largest evidence size, in bytes, that the public flag reports as valid.
pub const MAX_EVIDENCE_LEN: usize = 10000;

/// The public output bundle of one commitment run.
#[derive(Debug, Clone, Copy)]
pub struct Commitment {
    /// Digest of the raw evidence bytes.
    pub evidence_hash: [u8; 32],
    /// Digest of the evidence digest followed by the salt.
    pub commitment: [u8; 32],
    /// Whether the evidence is within the size bound; reported, never enforced.
    pub valid_length: bool,
}

impl Commitment {
    /// The bundle commits to `content` under `salt`.
    pub open spec fn is_commit_of(self, content: Seq<u8>, salt: Seq<u8>) -> bool {
        &&& self.evidence_hash@ == sha256_of(content)
        &&& self.commitment@ == sha256_of(sha256_of(content) + salt)
        &&& self.valid_length == (content.len() <= MAX_EVIDENCE_LEN)
    }
}

/// Digest of the raw evidence bytes: the public linking key.
pub fn compute_evidence_hash(content: &[u8]) -> (r: [u8; 32])
    ensures
        r@ == sha256_of(content@),
{
    sha256(content)
}

/// The salted commitment: the digest of the evidence digest followed by the
/// salt. Hashing the digest rather than the raw content keeps the commitment
/// cheap while leaving it unguessable without the salt. Distinct salts over
/// the same evidence hash yield distinct commitments only with the
/// overwhelming probability of a collision-resistant hash, not absolutely, so
/// that property is exercised by a test rather than stated here.
pub fn compute_commitment(evidence_hash: &[u8; 32], salt: &[u8]) -> (r: [u8; 32])
    ensures
        r@ == sha256_of(evidence_hash@ + salt@),
{
    let mut buf: Vec<u8> = Vec::new();
    let mut i: usize = 0;
    while i < 32
        invariant
            i <= 32,
            buf@ == evidence_hash@.take(i as int),
        decreases 32 - i,
    {
        buf.push(evidence_hash[i]);
        proof {
            assert(evidence_hash@.take(i + 1) =~= evidence_hash@.take(i as int).push(
                evidence_hash@[i as int],
            ));
        }
        i = i + 1;
    }
    proof {
        assert(evidence_hash@.take(32) =~= evidence_hash@);
        assert(evidence_hash@ + salt@.take(0) =~= evidence_hash@);
    }
    let mut j: usize = 0;
    while j < salt.len()
        invariant
            j <= salt@.len(),
            buf@ == evidence_hash@ + salt@.take(j as int),
        decreases salt@.len() - j,
    {
        buf.push(salt[j]);
        proof {
            assert(evidence_hash@ + salt@.take(j + 1) =~= (evidence_hash@ + salt@.take(
                j as int,
            )).push(salt@[j as int]));
        }
        j = j + 1;
    }
    proof {
        assert(evidence_hash@ + salt@.take(salt@.len() as int) =~= evidence_hash@ + salt@);
    }
    sha256(buf.as_slice())
}

/// The whole commitment step: hash the content, derive the salted commitment,
/// and report whether the content is within the size bound. Total over all
/// inputs; oversized content is flagged, not rejected.
pub fn commit(content: &[u8], salt: &[u8]) -> (r: Commitment)
    ensures
        r.is_commit_of(content@, salt@),
{
    let evidence_hash = compute_evidence_hash(content);
    let commitment = compute_commitment(&evidence_hash, salt);
    let valid_length = content.len() <= MAX_EVIDENCE_LEN;
    Commitment { evidence_hash, commitment, valid_length }
}

/// Commitment reproducibility: two bundles committing to the same content
/// under the same salt agree on every public field.
pub proof fn lemma_commitment_reproducible(
    c1: Commitment,
    c2: Commitment,
    content: Seq<u8>,
    salt: Seq<u8>,
)
    requires
        c1.is_commit_of(content, salt),
        c2.is_commit_of(content, salt),
    ensures
        c1.evidence_hash@ == c2.evidence_hash@,
        c1.commitment@ == c2.commitment@,
        c1.valid_length == c2.valid_length,
{
}

} // verus!
