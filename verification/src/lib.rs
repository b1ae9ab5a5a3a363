//! Commit-reveal evidence commitments and outcome attestations for a
//! dispute-resolution protocol.
//!
//! Two pure components share one hash function: `commitment` binds a party to
//! evidence content without revealing it, and `attestation` turns an analysis
//! of that evidence into a structured outcome that is cryptographically linked
//! back to the committed evidence.

pub mod attestation;
pub mod commitment;
pub mod hashing;
pub mod scan;

use vstd::prelude::*;

verus! {

/// Linking invariant: a commitment and an attestation over the same evidence
/// bytes carry bit-for-bit equal evidence hashes, so a verifier comparing the
/// two public hashes knows the attested outcome is about the committed
/// evidence.
pub proof fn lemma_linking(
    c: commitment::Commitment,
    a: attestation::Attestation,
    evidence: Seq<u8>,
    salt: Seq<u8>,
    analysis: Seq<u8>,
)
    requires
        c.is_commit_of(evidence, salt),
        a.is_attestation_of(evidence, analysis),
    ensures
        c.evidence_hash@ == a.evidence_hash@,
{
}

} // verus!
