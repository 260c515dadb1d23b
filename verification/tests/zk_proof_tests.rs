use web5claims::dict::Dict;
use web5claims::{CefrLevel, ClaimType, ProofData, ProofMetadata, PublicInputs, ZkProofClaim};

fn create_test_claim() -> ZkProofClaim {
    ZkProofClaim::new(
        ClaimType::PerformanceThreshold { min_percentage: 90 },
        PublicInputs {
            requirements: Dict::new(),
            verification_result: true,
            certificate_hash: "hash123".to_string(),
        },
        ProofData {
            proof_bytes: vec![1, 2, 3],
            circuit_id: "test_circuit".to_string(),
            vk_hash: "vk123".to_string(),
        },
        ProofMetadata {
            version: "1.0.0".to_string(),
            platform: "test".to_string(),
            properties: Dict::new(),
        },
    )
}

#[test]
fn test_zk_proof_claim_creation() {
    let claim_type = ClaimType::LanguageProficiency {
        language: "German".to_string(),
        min_level: CefrLevel::B2,
    };

    let public_inputs = PublicInputs {
        requirements: Dict::new(),
        verification_result: true,
        certificate_hash: "test_hash".to_string(),
    };

    let proof_data = ProofData {
        proof_bytes: vec![1, 2, 3, 4],
        circuit_id: "language_verification_v1".to_string(),
        vk_hash: "vk_hash_123".to_string(),
    };

    let metadata = ProofMetadata {
        version: "1.0.0".to_string(),
        platform: "aleo".to_string(),
        properties: Dict::new(),
    };

    let claim = ZkProofClaim::new(claim_type, public_inputs, proof_data, metadata);

    assert!(!claim.proof_id.is_empty());
    assert!(claim.verify_integrity());
    assert!(!claim.get_proof_hash().is_empty());
}

#[test]
fn test_proof_verification() {
    let mut claim = create_test_claim();
    assert!(claim.verify_integrity());

    claim.proof_id = String::new();
    assert!(!claim.verify_integrity());
}

#[test]
fn test_proof_id_has_identifier_shape() {
    let claim = create_test_claim();
    assert_eq!(claim.proof_id.len(), 36);
}

#[test]
fn test_proof_hash_is_lowercase_hex() {
    let claim = create_test_claim();
    let hash = claim.get_proof_hash();
    assert_eq!(hash.len(), 64);
    assert!(hash
        .chars()
        .all(|c| c.is_ascii_digit() || ('a'..='f').contains(&c)));
}
