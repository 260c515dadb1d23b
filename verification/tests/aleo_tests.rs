use web5claims::aleo::{
    certificate_to_leo_inputs, cefr_level_to_u8, combined_proof_inputs, encode_language_to_field,
    language_proof_inputs, performance_proof_inputs, PROGRAM_ID,
};
use web5claims::{Certificate, CefrLevel};

#[test]
fn test_program_id() {
    assert_eq!(PROGRAM_ID, "web5claims.aleo");
}

#[test]
fn test_encode_language_to_field() {
    assert_eq!(encode_language_to_field("german"), "1field");
    assert_eq!(encode_language_to_field("German"), "1field");
    assert_eq!(encode_language_to_field("SPANISH"), "2field");
    assert_eq!(encode_language_to_field("japanese"), "10field");
    assert_eq!(encode_language_to_field("klingon"), "0field");
}

#[test]
fn test_cefr_level_to_u8() {
    assert_eq!(cefr_level_to_u8(&CefrLevel::A1), 1);
    assert_eq!(cefr_level_to_u8(&CefrLevel::C2), 6);
}

#[test]
fn test_certificate_to_leo_inputs() {
    let cert = Certificate::new(
        "German_B2_Complete".to_string(),
        50,
        47,
        "Student".to_string(),
        1700000000,
    );
    let inputs = certificate_to_leo_inputs(&cert, "aleo1recipient");
    assert_eq!(inputs.len(), 7);
    assert_eq!(inputs[0], "aleo1recipient");
    assert_eq!(inputs[1], "1field");
    assert_eq!(inputs[2], "4u8");
    assert_eq!(inputs[3], "94u8");
    assert_eq!(inputs[4], "50u16");
    assert_eq!(inputs[5], "47u16");
    assert!(inputs[6].ends_with("u32"));
}

#[test]
fn test_language_proof_inputs() {
    let inputs = language_proof_inputs("French", &CefrLevel::B2);
    assert_eq!(inputs.len(), 3);
    assert_eq!(inputs[0], "3field");
    assert_eq!(inputs[1], "4u8");
    assert!(inputs[2].ends_with("u32"));
}

#[test]
fn test_performance_proof_inputs() {
    let inputs = performance_proof_inputs("english", 85);
    assert_eq!(inputs.len(), 3);
    assert_eq!(inputs[0], "5field");
    assert_eq!(inputs[1], "85u8");
}

#[test]
fn test_combined_proof_inputs() {
    let inputs = combined_proof_inputs("dutch", &CefrLevel::C1, 75);
    assert_eq!(inputs.len(), 4);
    assert_eq!(inputs[0], "7field");
    assert_eq!(inputs[1], "5u8");
    assert_eq!(inputs[2], "75u8");
}
