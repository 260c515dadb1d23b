use web5claims::dict::Dict;
use web5claims::zk_proof::ClaimValue;
use web5claims::{
    Certificate, CertificateIssuer, CefrLevel, ClaimType, ProofData, ProofMetadata, ProofOptions,
    ProofRequest, PublicInputs, ZkProofClaim, ZkProofVerifier,
};

fn create_test_proof() -> ZkProofClaim {
    let mut requirements = Dict::new();
    requirements.insert(
        "language".to_string(),
        ClaimValue::Text("German".to_string()),
    );
    requirements.insert("min_percentage".to_string(), ClaimValue::Number(90));
    let mut properties = Dict::new();
    properties.insert("issuer_id".to_string(), "demo".to_string());
    ZkProofClaim::new(
        ClaimType::LanguageProficiency {
            language: "German".to_string(),
            min_level: CefrLevel::B2,
        },
        PublicInputs {
            requirements,
            verification_result: true,
            certificate_hash: "test_hash".to_string(),
        },
        ProofData {
            proof_bytes: vec![1, 2, 3, 4],
            circuit_id: "test_circuit".to_string(),
            vk_hash: "test_vk".to_string(),
        },
        ProofMetadata {
            version: "1.0.0".to_string(),
            platform: "test".to_string(),
            properties,
        },
    )
}

#[test]
fn test_proof_encoding_decoding() {
    let original_proof = create_test_proof();

    let encoded = original_proof.to_transport();
    let decoded_proof = ZkProofClaim::from_transport(encoded.as_str()).unwrap();

    assert_eq!(original_proof.proof_id, decoded_proof.proof_id);
    assert_eq!(original_proof.claim_type, decoded_proof.claim_type);
}

#[test]
fn test_transport_round_trip_in_full() {
    let original = create_test_proof();
    let decoded = ZkProofClaim::from_transport(original.to_transport().as_str()).unwrap();

    assert_eq!(decoded.proof_id, original.proof_id);
    assert_eq!(decoded.claim_type, original.claim_type);
    assert_eq!(
        decoded.public_inputs.verification_result,
        original.public_inputs.verification_result
    );
    assert_eq!(
        decoded.public_inputs.certificate_hash,
        original.public_inputs.certificate_hash
    );
    assert_eq!(decoded.proof_data.proof_bytes, original.proof_data.proof_bytes);
    assert_eq!(decoded.proof_data.circuit_id, original.proof_data.circuit_id);
    assert_eq!(decoded.proof_data.vk_hash, original.proof_data.vk_hash);
    assert_eq!(decoded.generated_at, original.generated_at);
    assert_eq!(decoded.metadata.version, original.metadata.version);
    assert_eq!(decoded.metadata.platform, original.metadata.platform);
    assert_eq!(
        decoded.public_inputs.requirements.get("language"),
        Some(&ClaimValue::Text("German".to_string()))
    );
    assert_eq!(
        decoded.metadata.properties.get("issuer_id"),
        Some(&"demo".to_string())
    );
}

#[test]
fn test_transport_survives_issue_and_verify() {
    let issuer = CertificateIssuer::new("issuer".to_string(), "Issuer".to_string());
    let certificate = Certificate::new(
        "German_B2_Complete".to_string(),
        50,
        47,
        "Student".to_string(),
        1700000000,
    );
    let request = ProofRequest {
        certificate,
        claim_type: ClaimType::Combined {
            criteria: vec![
                ClaimType::LanguageProficiency {
                    language: "German".to_string(),
                    min_level: CefrLevel::B1,
                },
                ClaimType::CompletionDate {
                    after_date: 1600000000,
                },
            ],
        },
        target_platform: "aleo".to_string(),
        options: ProofOptions::default(),
    };
    let proof = issuer.generate_proof(request).unwrap();

    let decoded = ZkProofClaim::from_transport(proof.to_transport().as_str()).unwrap();
    let verifier = ZkProofVerifier::new("verifier".to_string());
    let result = verifier.verify_proof(&decoded).unwrap();
    assert!(result.is_valid);
    assert!(result.requirements_met);
}

#[test]
fn test_transport_rejects_garbage() {
    assert!(ZkProofClaim::from_transport("not a proof").is_none());
    assert!(ZkProofClaim::from_transport("").is_none());
}
