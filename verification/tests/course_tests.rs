use web5claims::course::{
    format_course_name, get_achievement_level, get_cefr_level_from_course,
    is_certificate_valid_for_zk_proof,
};
use web5claims::Certificate;

#[test]
fn test_cefr_level_parsing() {
    assert_eq!(get_cefr_level_from_course("German_B2_Complete"), 4);
    assert_eq!(get_cefr_level_from_course("Spanish_A1_Basic"), 1);
    assert_eq!(get_cefr_level_from_course("French_C1_Advanced"), 5);
}

#[test]
fn test_course_name_formatting() {
    assert_eq!(format_course_name("German_B2_Complete"), "German B2");
    assert_eq!(format_course_name("Spanish_A1_Basic"), "Spanish A1 - Basic");
}

#[test]
fn mod_test_certificate_validation() {
    let valid_cert = Certificate::new(
        "German_B2_Complete".to_string(),
        50,
        40,
        "Test User".to_string(),
        1700000000,
    );

    assert!(is_certificate_valid_for_zk_proof(&valid_cert));

    let invalid_cert = Certificate::new(
        "".to_string(),
        50,
        20,
        "".to_string(),
        1700000000,
    );

    assert!(!is_certificate_valid_for_zk_proof(&invalid_cert));
}

#[test]
fn test_achievement_levels() {
    assert_eq!(get_achievement_level(97), "Excellent");
    assert_eq!(get_achievement_level(94), "Very Good");
    assert_eq!(get_achievement_level(85), "Good");
    assert_eq!(get_achievement_level(75), "Satisfactory");
    assert_eq!(get_achievement_level(65), "Adequate");
    assert_eq!(get_achievement_level(40), "Needs Improvement");
}

#[test]
fn test_unknown_course_has_no_level() {
    assert_eq!(get_cefr_level_from_course("Italian_Conversation"), 0);
}
