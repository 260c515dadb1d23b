use web5claims::verification::CircuitInfo;
use web5claims::{
    Certificate, CertificateIssuer, CefrLevel, ClaimType, ProofOptions, ProofRequest,
    VerifierError, ZkProofClaim, ZkProofVerifier,
};

const TEST_DATE: i64 = 1700000000;

fn create_test_verifier() -> ZkProofVerifier {
    ZkProofVerifier::new("test_verifier_001".to_string())
}

fn create_test_proof() -> ZkProofClaim {
    let issuer = CertificateIssuer::new("test_issuer".to_string(), "Test Issuer".to_string());

    let certificate = Certificate::new(
        "German_B2_Complete".to_string(),
        50,
        47,
        "Test Student".to_string(),
        TEST_DATE,
    );

    let request = ProofRequest {
        certificate,
        claim_type: ClaimType::LanguageProficiency {
            language: "German".to_string(),
            min_level: CefrLevel::B1,
        },
        target_platform: "test".to_string(),
        options: ProofOptions::default(),
    };

    issuer.generate_proof(request).unwrap()
}

#[test]
fn test_verifier_creation() {
    let verifier = create_test_verifier();
    assert!(!verifier.verifier_id.is_empty());
    assert!(verifier.is_circuit_trusted("language_proficiency_v1"));
}

#[test]
fn test_proof_verification_success() {
    let verifier = create_test_verifier();
    let proof = create_test_proof();

    let result = verifier.verify_proof(&proof);
    assert!(result.is_ok());

    let verification_result = result.unwrap();
    assert!(verification_result.is_valid);
    assert!(verification_result.requirements_met);
    assert!(verification_result.warnings.is_empty());
}

#[test]
fn test_unsupported_platform() {
    let verifier = create_test_verifier();
    let mut proof = create_test_proof();
    proof.metadata.platform = "unsupported_platform".to_string();

    let result = verifier.verify_proof(&proof);
    assert!(result.is_err());

    match result.unwrap_err() {
        VerifierError::UnsupportedPlatform(platform) => {
            assert_eq!(platform, "unsupported_platform");
        }
        _ => panic!("Expected UnsupportedPlatform error"),
    }
}

#[test]
fn test_circuit_verification_failure() {
    let verifier = create_test_verifier();
    let mut proof = create_test_proof();
    proof.proof_data.vk_hash = "invalid_hash".to_string();

    let result = verifier.verify_proof(&proof);
    assert!(result.is_err());

    match result.unwrap_err() {
        VerifierError::CircuitVerificationFailed(_) => {}
        _ => panic!("Expected CircuitVerificationFailed error"),
    }
}

#[test]
fn test_unknown_circuit() {
    let verifier = create_test_verifier();
    let mut proof = create_test_proof();
    proof.proof_data.circuit_id = "unknown_circuit".to_string();

    let result = verifier.verify_proof(&proof);
    assert!(result.is_err());

    match result.unwrap_err() {
        VerifierError::CircuitVerificationFailed(msg) => {
            assert!(msg.contains("Unknown circuit"));
        }
        _ => panic!("Expected CircuitVerificationFailed error"),
    }
}

#[test]
fn test_performance_threshold_verification() {
    let issuer = CertificateIssuer::new("test_issuer".to_string(), "Test Issuer".to_string());

    let certificate = Certificate::new(
        "Spanish_B2_Complete".to_string(),
        50,
        45,
        "Test Student".to_string(),
        TEST_DATE,
    );

    let request = ProofRequest {
        certificate,
        claim_type: ClaimType::PerformanceThreshold { min_percentage: 85 },
        target_platform: "test".to_string(),
        options: ProofOptions::default(),
    };

    let proof = issuer.generate_proof(request).unwrap();
    let verifier = create_test_verifier();

    let result = verifier.verify_proof(&proof).unwrap();
    assert!(result.is_valid);
    assert!(result.requirements_met);
}

#[test]
fn test_add_trusted_circuit() {
    let mut verifier = create_test_verifier();

    let new_circuit = CircuitInfo {
        circuit_id: "custom_circuit_v1".to_string(),
        version: "1.0.0".to_string(),
        vk_hash: "custom_hash".to_string(),
        description: "Custom circuit for testing".to_string(),
    };

    verifier.add_trusted_circuit(new_circuit);
    assert!(verifier.is_circuit_trusted("custom_circuit_v1"));
}

#[test]
fn test_circuit_info_retrieval() {
    let verifier = create_test_verifier();

    let circuit_info = verifier.get_circuit_info("language_proficiency_v1");
    assert!(circuit_info.is_some());

    let info = circuit_info.unwrap();
    assert_eq!(info.circuit_id, "language_proficiency_v1");
    assert_eq!(info.version, "1.0.0");
    assert!(!info.vk_hash.is_empty());
    assert!(!info.description.is_empty());
}

#[test]
fn test_list_trusted_circuits() {
    let verifier = create_test_verifier();
    let circuits = verifier.list_trusted_circuits();

    assert!(circuits.contains(&"language_proficiency_v1".to_string()));
    assert!(circuits.contains(&"performance_threshold_v1".to_string()));
    assert!(circuits.contains(&"completion_date_v1".to_string()));
    assert!(circuits.contains(&"combined_criteria_v1".to_string()));
}

#[test]
fn test_verification_stats() {
    let verifier = create_test_verifier();
    let stats = verifier.get_verification_stats();

    assert_eq!(stats.verifier_id, "test_verifier_001");
    assert_eq!(stats.supported_platforms, 3);
    assert_eq!(stats.trusted_circuits, 4);
}

#[test]
fn verifier_test_vk_hash_consistency() {
    let verifier1 = create_test_verifier();
    let verifier2 = create_test_verifier();

    let circuit1 = verifier1
        .get_circuit_info("language_proficiency_v1")
        .unwrap();
    let circuit2 = verifier2
        .get_circuit_info("language_proficiency_v1")
        .unwrap();

    assert_eq!(circuit1.vk_hash, circuit2.vk_hash);
}

#[test]
fn test_end_to_end_verification() {
    let issuer = CertificateIssuer::new("e2e_issuer".to_string(), "E2E Test".to_string());
    let certificate = Certificate::new(
        "French_C1_Advanced".to_string(),
        60,
        58,
        "Advanced Student".to_string(),
        TEST_DATE,
    );

    let request = ProofRequest {
        certificate,
        claim_type: ClaimType::Combined {
            criteria: vec![
                ClaimType::LanguageProficiency {
                    language: "French".to_string(),
                    min_level: CefrLevel::B2,
                },
                ClaimType::PerformanceThreshold { min_percentage: 90 },
            ],
        },
        target_platform: "aleo".to_string(),
        options: ProofOptions::default(),
    };

    let proof = issuer.generate_proof(request).unwrap();

    let verifier = create_test_verifier();
    let verification_result = verifier.verify_proof(&proof).unwrap();

    assert!(verification_result.is_valid);
    assert!(verification_result.requirements_met);
    assert_eq!(verification_result.details.platform, "aleo");
    assert_eq!(
        verification_result.details.circuit_id,
        "combined_criteria_v1"
    );
}

#[test]
fn test_integrity_check_failure() {
    let verifier = create_test_verifier();
    let mut proof = create_test_proof();
    proof.proof_id = String::new();

    match verifier.verify_proof(&proof).unwrap_err() {
        VerifierError::IntegrityCheckFailed => {}
        _ => panic!("Expected IntegrityCheckFailed error"),
    }
}

#[test]
fn test_tampered_envelope_rejected() {
    let verifier = create_test_verifier();

    let mut with_wrong_hash = create_test_proof();
    with_wrong_hash.proof_data.vk_hash = "ffffffffffffffff".to_string();
    assert!(matches!(
        verifier.verify_proof(&with_wrong_hash),
        Err(VerifierError::CircuitVerificationFailed(_))
    ));

    let mut with_unknown_circuit = create_test_proof();
    with_unknown_circuit.proof_data.circuit_id = "language_proficiency_v9".to_string();
    assert!(matches!(
        verifier.verify_proof(&with_unknown_circuit),
        Err(VerifierError::CircuitVerificationFailed(_))
    ));
}

#[test]
fn test_unmet_requirements_still_verify() {
    let issuer = CertificateIssuer::new("issuer".to_string(), "Issuer".to_string());
    let certificate = Certificate::new(
        "German_B1_Complete".to_string(),
        40,
        36,
        "Student".to_string(),
        TEST_DATE,
    );

    let request = ProofRequest {
        certificate,
        claim_type: ClaimType::LanguageProficiency {
            language: "German".to_string(),
            min_level: CefrLevel::C2,
        },
        target_platform: "test".to_string(),
        options: ProofOptions::default(),
    };

    let proof = issuer.generate_proof(request).unwrap();
    let verifier = create_test_verifier();
    let result = verifier.verify_proof(&proof).unwrap();

    assert!(result.is_valid);
    assert!(!result.requirements_met);
    assert_eq!(
        result.warnings,
        vec!["Language proficiency requirements not met".to_string()]
    );
}
