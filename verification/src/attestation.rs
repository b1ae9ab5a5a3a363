//! Outcome attestation: turn an analysis text into a binary outcome and a
//! confidence score, and cryptographically bind both to the evidence the
//! analysis is about.
//!
//! The attestor publishes `(outcome, confidence, evidence_hash,
//! reasoning_hash)`. Extraction never fails: a text without the outcome token
//! means outcome no, and a text without a usable confidence annotation gets
//! the default confidence, so every input yields a complete bundle.

use crate::hashing::{sha256, sha256_of};
use crate::scan::{
    find_byte, find_byte_from, find_from, find_pattern, lemma_find_byte_some,
    lemma_find_from_none, lemma_find_from_some, lemma_no_match_find_none, matches_at,
    parse_percent_field, spec_percent_field, to_upper, upper_seq,
};
use vstd::prelude::*;
use vstd::slice::slice_subrange;

verus! {

/// Fallback confidence, in basis points, when no usable annotation is found.
pub const DEFAULT_CONFIDENCE: u16 = 5000;

/// The outcome token, as scanned for in the upper-cased view: `YES`.
pub open spec fn yes_token() -> Seq<u8> {
    seq![89u8, 69u8, 83u8]
}

/// The confidence marker, as scanned for in the upper-cased view:
/// `CONFIDENCE:`.
pub open spec fn confidence_marker() -> Seq<u8> {
    seq![67u8, 79u8, 78u8, 70u8, 73u8, 68u8, 69u8, 78u8, 67u8, 69u8, 58u8]
}

/// The analysis text mentions the outcome token, case-insensitively.
pub open spec fn mentions_yes(s: Seq<u8>) -> bool {
    exists|i: int| matches_at(upper_seq(s), yes_token(), i)
}

/// The outcome derived from an analysis text: `1` (yes) exactly when the text
/// mentions the outcome token, else `0` (no). A missing token is a definite
/// no, not a failure.
pub open spec fn spec_outcome(s: Seq<u8>) -> u8 {
    if mentions_yes(s) {
        1
    } else {
        0
    }
}

/// The confidence derived from an analysis text, in basis points: the decimal
/// percentage standing between the first (case-insensitive) confidence marker
/// and the first `%` after it, trimmed of whitespace and scaled by 100;
/// `DEFAULT_CONFIDENCE` when the marker or the `%` is missing or the field is
/// not a percentage in range.
pub open spec fn spec_confidence(s: Seq<u8>) -> u16 {
    match find_from(upper_seq(s), confidence_marker(), 0) {
        Some(idx) => {
            let start = idx + confidence_marker().len();
            match find_byte_from(s, 37, start) {
                Some(j) => match spec_percent_field(s.subrange(start, j)) {
                    Some(v) => (v * 100) as u16,
                    None => DEFAULT_CONFIDENCE,
                },
                None => DEFAULT_CONFIDENCE,
            }
        },
        None => DEFAULT_CONFIDENCE,
    }
}

/// The structured result drawn from one analysis text.
#[derive(Debug, Clone, Copy)]
pub struct AIAnalysisResult {
    /// 0 = no, 1 = yes.
    pub outcome: u8,
    /// Confidence in basis points, at most 10000.
    pub confidence: u16,
    /// Digest of the raw analysis text.
    pub reasoning_hash: [u8; 32],
}

impl AIAnalysisResult {
    /// This result is exactly what `analysis` parses to.
    pub open spec fn is_parse_of(self, analysis: Seq<u8>) -> bool {
        &&& self.outcome == spec_outcome(analysis)
        &&& self.confidence == spec_confidence(analysis)
        &&& self.reasoning_hash@ == sha256_of(analysis)
    }
}

/// The public output bundle of one attestation run.
#[derive(Debug, Clone, Copy)]
pub struct Attestation {
    /// 0 = no, 1 = yes.
    pub outcome: u8,
    /// Confidence in basis points, at most 10000.
    pub confidence: u16,
    /// Digest of the evidence bytes, the public linking key.
    pub evidence_hash: [u8; 32],
    /// Digest of the raw analysis text.
    pub reasoning_hash: [u8; 32],
}

impl Attestation {
    /// The bundle attests the analysis of `analysis` as being about
    /// `evidence`.
    pub open spec fn is_attestation_of(self, evidence: Seq<u8>, analysis: Seq<u8>) -> bool {
        &&& self.outcome == spec_outcome(analysis)
        &&& self.confidence == spec_confidence(analysis)
        &&& self.evidence_hash@ == sha256_of(evidence)
        &&& self.reasoning_hash@ == sha256_of(analysis)
    }
}

fn yes_token_vec() -> (v: Vec<u8>)
    ensures
        v@ == yes_token(),
{
    let mut v: Vec<u8> = Vec::new();
    v.push(89);
    v.push(69);
    v.push(83);
    proof {
        assert(v@ =~= yes_token());
    }
    v
}

fn confidence_marker_vec() -> (v: Vec<u8>)
    ensures
        v@ == confidence_marker(),
{
    let mut v: Vec<u8> = Vec::new();
    v.push(67);
    v.push(79);
    v.push(78);
    v.push(70);
    v.push(73);
    v.push(68);
    v.push(69);
    v.push(78);
    v.push(67);
    v.push(69);
    v.push(58);
    proof {
        assert(v@ =~= confidence_marker());
    }
    v
}

/// Digest of one byte string, shared by the reasoning and evidence hashes.
pub fn compute_hash(data: &[u8]) -> (r: [u8; 32])
    ensures
        r@ == sha256_of(data@),
{
    sha256(data)
}

/// Extract the confidence annotation, in basis points, falling back to
/// `DEFAULT_CONFIDENCE` rather than failing.
pub fn extract_confidence(output: &[u8]) -> (r: u16)
    ensures
        r == spec_confidence(output@),
        r <= 10000,
{
    let n = output.len();
    let up = to_upper(output);
    let marker = confidence_marker_vec();
    match find_pattern(up.as_slice(), marker.as_slice()) {
        None => DEFAULT_CONFIDENCE,
        Some(idx) => {
            proof {
                lemma_find_from_some(upper_seq(output@), confidence_marker(), 0, idx as int);
                assert(upper_seq(output@).len() == output@.len());
                assert(idx + confidence_marker().len() <= n);
            }
            let start = idx + marker.len();
            match find_byte(output, 37, start) {
                None => DEFAULT_CONFIDENCE,
                Some(j) => {
                    proof {
                        lemma_find_byte_some(output@, 37, start as int, j as int);
                    }
                    let seg = slice_subrange(output, start, j);
                    match parse_percent_field(seg) {
                        Some(v) => v * 100,
                        None => DEFAULT_CONFIDENCE,
                    }
                },
            }
        },
    }
}

/// Parse one analysis text into its structured result: the outcome from the
/// token scan, the confidence from the annotation, and the digest of the raw
/// text as the reasoning commitment. Total over all inputs.
pub fn parse_ai_output(output: &[u8]) -> (r: AIAnalysisResult)
    ensures
        r.is_parse_of(output@),
        r.outcome == 0 || r.outcome == 1,
        r.confidence <= 10000,
{
    let up = to_upper(output);
    let yes = yes_token_vec();
    let outcome: u8 = match find_pattern(up.as_slice(), yes.as_slice()) {
        Some(i) => {
            proof {
                lemma_find_from_some(upper_seq(output@), yes_token(), 0, i as int);
            }
            1
        },
        None => {
            proof {
                assert forall|k: int| !#[trigger] matches_at(
                    upper_seq(output@),
                    yes_token(),
                    k,
                ) by {
                    if 0 <= k {
                        lemma_find_from_none(upper_seq(output@), yes_token(), 0, k);
                    }
                }
            }
            0
        },
    };
    let confidence = extract_confidence(output);
    let reasoning_hash = compute_hash(output);
    AIAnalysisResult { outcome, confidence, reasoning_hash }
}

/// The whole attestation step: parse the analysis text and bind the outcome
/// to the evidence by hashing the evidence with the same digest the
/// commitment side uses.
pub fn attest(evidence: &[u8], analysis_text: &[u8]) -> (r: Attestation)
    ensures
        r.is_attestation_of(evidence@, analysis_text@),
        r.outcome == 0 || r.outcome == 1,
        r.confidence <= 10000,
{
    let analysis = parse_ai_output(analysis_text);
    let evidence_hash = compute_hash(evidence);
    Attestation {
        outcome: analysis.outcome,
        confidence: analysis.confidence,
        evidence_hash,
        reasoning_hash: analysis.reasoning_hash,
    }
}

/// Confidence default: an analysis text that nowhere carries the confidence
/// marker always yields the default confidence.
pub proof fn lemma_confidence_default(analysis: Seq<u8>)
    requires
        forall|i: int| !#[trigger] matches_at(upper_seq(analysis), confidence_marker(), i),
    ensures
        spec_confidence(analysis) == DEFAULT_CONFIDENCE,
{
    lemma_no_match_find_none(upper_seq(analysis), confidence_marker(), 0);
}

/// Determinism of attestation: two bundles attesting the same evidence and
/// the same analysis text agree on every public field.
pub proof fn lemma_attestation_deterministic(
    a1: Attestation,
    a2: Attestation,
    evidence: Seq<u8>,
    analysis: Seq<u8>,
)
    requires
        a1.is_attestation_of(evidence, analysis),
        a2.is_attestation_of(evidence, analysis),
    ensures
        a1.outcome == a2.outcome,
        a1.confidence == a2.confidence,
        a1.evidence_hash@ == a2.evidence_hash@,
        a1.reasoning_hash@ == a2.reasoning_hash@,
{
}

} // verus!
