use web5claims::{
    create_sample_certificate, create_sample_proof, Certificate, CertificateIssuer, CefrLevel,
    ClaimType, ProofOptions, ProofRequest, ZkProofVerifier,
};

#[test]
fn test_create_sample_certificate() {
    let cert = create_sample_certificate();
    assert_eq!(cert.game_path_name, "German_B2_Complete");
    assert_eq!(cert.total_challenges, 50);
    assert_eq!(cert.solved_challenges, 47);
    assert_eq!(cert.performance_percentage, 94);
}

#[test]
fn test_create_sample_proof() {
    let proof = create_sample_proof().unwrap();
    assert!(!proof.proof_id.is_empty());
    assert!(proof.verify_integrity());

    let verifier = ZkProofVerifier::new("test_verifier".to_string());
    let result = verifier.verify_proof(&proof).unwrap();
    assert!(result.is_valid);
    assert!(result.requirements_met);
}

#[test]
fn test_end_to_end_workflow() {
    let certificate = create_sample_certificate();

    let issuer = CertificateIssuer::new(
        "e2e_issuer".to_string(),
        "End-to-End Test Issuer".to_string(),
    );

    let language_proof_request = ProofRequest {
        certificate: certificate.clone(),
        claim_type: ClaimType::LanguageProficiency {
            language: "German".to_string(),
            min_level: CefrLevel::B1,
        },
        target_platform: "aleo".to_string(),
        options: ProofOptions::default(),
    };

    let language_proof = issuer.generate_proof(language_proof_request).unwrap();

    let performance_proof_request = ProofRequest {
        certificate: certificate.clone(),
        claim_type: ClaimType::PerformanceThreshold { min_percentage: 90 },
        target_platform: "stylus".to_string(),
        options: ProofOptions::default(),
    };

    let performance_proof = issuer.generate_proof(performance_proof_request).unwrap();

    let verifier = ZkProofVerifier::new("e2e_verifier".to_string());

    let language_result = verifier.verify_proof(&language_proof).unwrap();
    let performance_result = verifier.verify_proof(&performance_proof).unwrap();

    assert!(language_result.is_valid && language_result.requirements_met);
    assert!(performance_result.is_valid && performance_result.requirements_met);

    let combined_request = ProofRequest {
        certificate,
        claim_type: ClaimType::Combined {
            criteria: vec![
                ClaimType::LanguageProficiency {
                    language: "German".to_string(),
                    min_level: CefrLevel::B1,
                },
                ClaimType::PerformanceThreshold { min_percentage: 90 },
            ],
        },
        target_platform: "aleo".to_string(),
        options: ProofOptions::default(),
    };

    let combined_proof = issuer.generate_proof(combined_request).unwrap();
    let combined_result = verifier.verify_proof(&combined_proof).unwrap();

    assert!(combined_result.is_valid && combined_result.requirements_met);
}

#[test]
fn test_concrete_scenario() {
    let issuer = CertificateIssuer::new("issuer".to_string(), "Issuer".to_string());
    let certificate = Certificate::new(
        "German_B2_Complete".to_string(),
        50,
        47,
        "Learner".to_string(),
        1700000000,
    );
    assert_eq!(certificate.performance_percentage, 94);

    let language_request = ProofRequest {
        certificate: certificate.clone(),
        claim_type: ClaimType::LanguageProficiency {
            language: "German".to_string(),
            min_level: CefrLevel::B1,
        },
        target_platform: "test".to_string(),
        options: ProofOptions::default(),
    };
    let proof = issuer.generate_proof(language_request).unwrap();
    assert_eq!(proof.proof_data.circuit_id, "language_proficiency_v1");

    let verifier = ZkProofVerifier::new("verifier".to_string());
    let result = verifier.verify_proof(&proof).unwrap();
    assert!(result.requirements_met);

    let threshold_request = ProofRequest {
        certificate,
        claim_type: ClaimType::PerformanceThreshold { min_percentage: 99 },
        target_platform: "test".to_string(),
        options: ProofOptions::default(),
    };
    match issuer.generate_proof(threshold_request).unwrap_err() {
        web5claims::IssuerError::InsufficientPerformance { required, actual } => {
            assert_eq!(required, 99);
            assert_eq!(actual, 94);
        }
        _ => panic!("Expected InsufficientPerformance error"),
    }
}
