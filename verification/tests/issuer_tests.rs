use web5claims::{Certificate, CertificateIssuer, CefrLevel, ClaimType, IssuerError, ProofOptions, ProofRequest};

const TEST_DATE: i64 = 1700000000;

fn create_test_certificate() -> Certificate {
    Certificate::new(
        "German_B2_Complete".to_string(),
        50,
        47,
        "Test Student".to_string(),
        TEST_DATE,
    )
}

fn create_test_issuer() -> CertificateIssuer {
    CertificateIssuer::new(
        "test_issuer_001".to_string(),
        "Web5 Claims Test Issuer".to_string(),
    )
}

#[test]
fn issuer_test_certificate_validation() {
    let issuer = create_test_issuer();
    let certificate = create_test_certificate();

    assert!(issuer.validate_certificate(&certificate).is_ok());
}

#[test]
fn test_invalid_certificate_validation() {
    let issuer = create_test_issuer();
    let mut certificate = create_test_certificate();
    certificate.profile_name = String::new();

    assert!(issuer.validate_certificate(&certificate).is_err());
}

#[test]
fn test_language_proficiency_proof() {
    let issuer = create_test_issuer();
    let certificate = create_test_certificate();

    let request = ProofRequest {
        certificate,
        claim_type: ClaimType::LanguageProficiency {
            language: "German".to_string(),
            min_level: CefrLevel::B1,
        },
        target_platform: "test".to_string(),
        options: ProofOptions::default(),
    };

    let result = issuer.generate_proof(request);
    assert!(result.is_ok());

    let proof = result.unwrap();
    assert!(proof.public_inputs.verification_result);
    assert_eq!(proof.metadata.platform, "test");
}

#[test]
fn test_performance_threshold_proof() {
    let issuer = create_test_issuer();
    let certificate = create_test_certificate();

    let request = ProofRequest {
        certificate,
        claim_type: ClaimType::PerformanceThreshold { min_percentage: 90 },
        target_platform: "aleo".to_string(),
        options: ProofOptions::default(),
    };

    let result = issuer.generate_proof(request);
    assert!(result.is_ok());

    let proof = result.unwrap();
    assert!(proof.public_inputs.verification_result);
}

#[test]
fn test_insufficient_performance() {
    let issuer = create_test_issuer();
    let certificate = create_test_certificate();

    let request = ProofRequest {
        certificate,
        claim_type: ClaimType::PerformanceThreshold { min_percentage: 99 },
        target_platform: "test".to_string(),
        options: ProofOptions::default(),
    };

    let result = issuer.generate_proof(request);
    assert!(result.is_err());

    match result.unwrap_err() {
        IssuerError::InsufficientPerformance { required, actual } => {
            assert_eq!(required, 99);
            assert_eq!(actual, 94);
        }
        _ => panic!("Expected InsufficientPerformance error"),
    }
}

#[test]
fn test_completion_date_proof() {
    let issuer = create_test_issuer();
    let certificate = create_test_certificate();

    let past_date: i64 = TEST_DATE - 30 * 24 * 60 * 60;

    let request = ProofRequest {
        certificate,
        claim_type: ClaimType::CompletionDate {
            after_date: past_date,
        },
        target_platform: "stylus".to_string(),
        options: ProofOptions::default(),
    };

    let result = issuer.generate_proof(request);
    assert!(result.is_ok());

    let proof = result.unwrap();
    assert!(proof.public_inputs.verification_result);
}

#[test]
fn test_combined_proof() {
    let issuer = create_test_issuer();
    let certificate = create_test_certificate();

    let criteria = vec![
        ClaimType::LanguageProficiency {
            language: "German".to_string(),
            min_level: CefrLevel::B1,
        },
        ClaimType::PerformanceThreshold { min_percentage: 90 },
    ];

    let request = ProofRequest {
        certificate,
        claim_type: ClaimType::Combined { criteria },
        target_platform: "aleo".to_string(),
        options: ProofOptions::default(),
    };

    let result = issuer.generate_proof(request);
    assert!(result.is_ok());

    let proof = result.unwrap();
    assert!(proof.public_inputs.verification_result);
}

#[test]
fn test_proof_integrity() {
    let issuer = create_test_issuer();
    let certificate = create_test_certificate();

    let request = ProofRequest {
        certificate,
        claim_type: ClaimType::PerformanceThreshold { min_percentage: 80 },
        target_platform: "test".to_string(),
        options: ProofOptions::default(),
    };

    let proof = issuer.generate_proof(request).unwrap();
    assert!(proof.verify_integrity());
    assert!(!proof.get_proof_hash().is_empty());
}

#[test]
fn issuer_test_vk_hash_consistency() {
    let circuit_id = "test_circuit_v1";
    let hash1 = CertificateIssuer::compute_verification_key_hash(circuit_id);
    let hash2 = CertificateIssuer::compute_verification_key_hash(circuit_id);
    assert_eq!(hash1, hash2);
    assert!(!hash1.is_empty());
}

#[test]
fn test_vk_hash_is_lowercase_hex_digest() {
    let hash = CertificateIssuer::compute_verification_key_hash("language_proficiency_v1");
    assert_eq!(hash.len(), 64);
    assert!(hash
        .chars()
        .all(|c| c.is_ascii_digit() || ('a'..='f').contains(&c)));
    assert_ne!(hash, "vk_language_proficiency_v1test");
}

#[test]
fn test_invalid_cefr_level() {
    let issuer = create_test_issuer();
    let certificate = Certificate::new(
        "German_Conversation".to_string(),
        10,
        9,
        "Student".to_string(),
        TEST_DATE,
    );

    let request = ProofRequest {
        certificate,
        claim_type: ClaimType::LanguageProficiency {
            language: "German".to_string(),
            min_level: CefrLevel::A1,
        },
        target_platform: "test".to_string(),
        options: ProofOptions::default(),
    };

    match issuer.generate_proof(request).unwrap_err() {
        IssuerError::InvalidCefrLevel(course) => {
            assert_eq!(course, "German_Conversation");
        }
        _ => panic!("Expected InvalidCefrLevel error"),
    }
}

#[test]
fn test_language_mismatch() {
    let issuer = create_test_issuer();
    let certificate = create_test_certificate();

    let request = ProofRequest {
        certificate,
        claim_type: ClaimType::LanguageProficiency {
            language: "Spanish".to_string(),
            min_level: CefrLevel::A1,
        },
        target_platform: "test".to_string(),
        options: ProofOptions::default(),
    };

    match issuer.generate_proof(request).unwrap_err() {
        IssuerError::InvalidCertificate(reason) => {
            assert_eq!(
                reason,
                "Certificate language German does not match requested language Spanish"
            );
        }
        _ => panic!("Expected InvalidCertificate error"),
    }
}

#[test]
fn test_unsupported_platform_refused() {
    let issuer = create_test_issuer();
    let certificate = create_test_certificate();

    let request = ProofRequest {
        certificate,
        claim_type: ClaimType::PerformanceThreshold { min_percentage: 50 },
        target_platform: "solana".to_string(),
        options: ProofOptions::default(),
    };

    match issuer.generate_proof(request).unwrap_err() {
        IssuerError::InvalidClaimType => {}
        _ => panic!("Expected InvalidClaimType error"),
    }
}

#[test]
fn test_combined_proof_reports_failures() {
    let issuer = create_test_issuer();
    let certificate = create_test_certificate();

    let criteria = vec![
        ClaimType::LanguageProficiency {
            language: "German".to_string(),
            min_level: CefrLevel::B1,
        },
        ClaimType::PerformanceThreshold { min_percentage: 99 },
    ];

    let request = ProofRequest {
        certificate,
        claim_type: ClaimType::Combined { criteria },
        target_platform: "test".to_string(),
        options: ProofOptions::default(),
    };

    let proof = issuer.generate_proof(request).unwrap();
    assert!(!proof.public_inputs.verification_result);
}

#[test]
fn test_completion_date_requirement_text() {
    let issuer = create_test_issuer();
    let certificate = create_test_certificate();

    let request = ProofRequest {
        certificate,
        claim_type: ClaimType::CompletionDate {
            after_date: 1431648000,
        },
        target_platform: "test".to_string(),
        options: ProofOptions::default(),
    };

    let proof = issuer.generate_proof(request).unwrap();
    match proof.public_inputs.requirements.get("after_date") {
        Some(web5claims::zk_proof::ClaimValue::Text(text)) => {
            assert_eq!(text, "2015-05-15T00:00:00+00:00");
        }
        _ => panic!("Expected a textual after_date requirement"),
    }
}

#[test]
fn test_custom_properties_carry_over() {
    let issuer = create_test_issuer();
    let certificate = create_test_certificate();

    let mut options = ProofOptions::default();
    options
        .custom_properties
        .insert("purpose".to_string(), "enrollment".to_string());

    let request = ProofRequest {
        certificate,
        claim_type: ClaimType::PerformanceThreshold { min_percentage: 80 },
        target_platform: "test".to_string(),
        options,
    };

    let proof = issuer.generate_proof(request).unwrap();
    assert_eq!(
        proof.metadata.properties.get("purpose"),
        Some(&"enrollment".to_string())
    );
    assert_eq!(
        proof.metadata.properties.get("issuer_id"),
        Some(&"test_issuer_001".to_string())
    );
    assert_eq!(
        proof.metadata.properties.get("issuer_name"),
        Some(&"Web5 Claims Test Issuer".to_string())
    );
}
