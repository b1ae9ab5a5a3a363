use evidence_attest::attestation::{attest, compute_hash, extract_confidence, parse_ai_output};
use evidence_attest::commitment::{commit, compute_commitment, compute_evidence_hash};

#[test]
fn test_parse_ai_output_yes() {
    let output = "Analysis: The evidence strongly suggests YES. Confidence: 85%";
    let result = parse_ai_output(output.as_bytes());
    assert_eq!(result.outcome, 1);
    assert_eq!(result.confidence, 8500);
}

#[test]
fn test_parse_ai_output_no() {
    let output = "Analysis: The evidence suggests NO. Confidence: 70%";
    let result = parse_ai_output(output.as_bytes());
    assert_eq!(result.outcome, 0);
    assert_eq!(result.confidence, 7000);
}

#[test]
fn test_hash_deterministic() {
    let data = "Test evidence";
    let h1 = compute_hash(data.as_bytes());
    let h2 = compute_hash(data.as_bytes());
    assert_eq!(h1, h2);
}

#[test]
fn test_evidence_hash_deterministic() {
    let content = "Evidence: ETH price was $3500 at 12:00 UTC";
    let hash1 = compute_evidence_hash(content.as_bytes());
    let hash2 = compute_evidence_hash(content.as_bytes());
    assert_eq!(hash1, hash2);
}

#[test]
fn test_commitment_unique_per_salt() {
    let evidence_hash = compute_evidence_hash("test evidence".as_bytes());
    let commitment1 = compute_commitment(&evidence_hash, "salt1".as_bytes());
    let commitment2 = compute_commitment(&evidence_hash, "salt2".as_bytes());
    assert_ne!(commitment1, commitment2);
}

#[test]
fn test_commitment_verification() {
    let content = "Test evidence content";
    let salt = "my_secret_salt_123";

    let evidence_hash = compute_evidence_hash(content.as_bytes());
    let commitment = compute_commitment(&evidence_hash, salt.as_bytes());

    let recomputed = compute_commitment(&evidence_hash, salt.as_bytes());
    assert_eq!(commitment, recomputed);
}

#[test]
fn test_sha256_known_vectors() {
    let empty_digest: [u8; 32] = [
        0xe3, 0xb0, 0xc4, 0x42, 0x98, 0xfc, 0x1c, 0x14, 0x9a, 0xfb, 0xf4, 0xc8, 0x99, 0x6f,
        0xb9, 0x24, 0x27, 0xae, 0x41, 0xe4, 0x64, 0x9b, 0x93, 0x4c, 0xa4, 0x95, 0x99, 0x1b,
        0x78, 0x52, 0xb8, 0x55,
    ];
    assert_eq!(compute_hash(&[]), empty_digest);
    assert_eq!(compute_evidence_hash(&[]), empty_digest);

    let abc_digest: [u8; 32] = [
        0xba, 0x78, 0x16, 0xbf, 0x8f, 0x01, 0xcf, 0xea, 0x41, 0x41, 0x40, 0xde, 0x5d, 0xae,
        0x22, 0x23, 0xb0, 0x03, 0x61, 0xa3, 0x96, 0x17, 0x7a, 0x9c, 0xb4, 0x10, 0xff, 0x61,
        0xf2, 0x00, 0x15, 0xad,
    ];
    assert_eq!(compute_hash("abc".as_bytes()), abc_digest);
}

#[test]
fn test_length_flag_boundary() {
    let content = vec![b'a'; 10000];
    let c = commit(&content, "salt".as_bytes());
    assert!(c.valid_length);
}

#[test]
fn test_length_flag_oversized() {
    let content = vec![b'a'; 10001];
    let c = commit(&content, "salt".as_bytes());
    assert!(!c.valid_length);
}

#[test]
fn test_commit_empty_inputs() {
    let c = commit(&[], &[]);
    assert!(c.valid_length);
    assert_eq!(c.evidence_hash, compute_evidence_hash(&[]));
    assert_eq!(c.commitment, compute_commitment(&compute_evidence_hash(&[]), &[]));
}

#[test]
fn test_confidence_default_no_marker() {
    assert_eq!(extract_confidence("The evidence is inconclusive.".as_bytes()), 5000);
}

#[test]
fn test_confidence_missing_percent() {
    assert_eq!(extract_confidence("confidence: 85".as_bytes()), 5000);
}

#[test]
fn test_confidence_not_a_number() {
    assert_eq!(extract_confidence("confidence: high%".as_bytes()), 5000);
}

#[test]
fn test_confidence_out_of_range() {
    assert_eq!(extract_confidence("confidence: 150%".as_bytes()), 5000);
}

#[test]
fn test_confidence_whitespace_and_hundred() {
    assert_eq!(extract_confidence("confidence:   100  %".as_bytes()), 10000);
    assert_eq!(extract_confidence("confidence: 0%".as_bytes()), 0);
}

#[test]
fn test_outcome_lowercase_yes() {
    let result = parse_ai_output("the answer is yes".as_bytes());
    assert_eq!(result.outcome, 1);
    assert_eq!(result.confidence, 5000);
}

#[test]
fn test_parse_empty_input() {
    let result = parse_ai_output(&[]);
    assert_eq!(result.outcome, 0);
    assert_eq!(result.confidence, 5000);
    assert_eq!(result.reasoning_hash, compute_hash(&[]));
}

#[test]
fn test_linking_invariant() {
    let evidence = "Evidence: the oracle reported 42.";
    let analysis = "Analysis: strongly suggests YES. Confidence: 90%";
    let c = commit(evidence.as_bytes(), "some_salt".as_bytes());
    let a = attest(evidence.as_bytes(), analysis.as_bytes());
    assert_eq!(c.evidence_hash, a.evidence_hash);
    assert_eq!(a.outcome, 1);
    assert_eq!(a.confidence, 9000);
}

#[test]
fn test_reasoning_hash_avalanche() {
    let analysis = "Analysis: suggests NO. Confidence: 70%".as_bytes().to_vec();
    let base = parse_ai_output(&analysis);
    for i in 0..analysis.len() {
        let mut flipped = analysis.clone();
        flipped[i] ^= 1;
        let changed = parse_ai_output(&flipped);
        assert_ne!(base.reasoning_hash, changed.reasoning_hash);
    }
}
