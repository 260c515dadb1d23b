use web5claims::CefrLevel;

#[test]
fn test_cefr_level_conversion() {
    assert_eq!(
        CefrLevel::from_course_name("German_B2_Complete"),
        Some(CefrLevel::B2)
    );
    assert_eq!(
        CefrLevel::from_course_name("Spanish_A1_Basic"),
        Some(CefrLevel::A1)
    );
    assert_eq!(CefrLevel::from_course_name("Invalid_Course"), None);
}

#[test]
fn test_cefr_level_numeric() {
    assert_eq!(CefrLevel::B2.to_numeric(), 4);
    assert_eq!(CefrLevel::A1.to_numeric(), 1);
    assert_eq!(CefrLevel::C2.to_numeric(), 6);
}

#[test]
fn test_cefr_level_ordering() {
    assert!(CefrLevel::B2 > CefrLevel::B1);
    assert!(CefrLevel::A1 < CefrLevel::A2);
    assert!(CefrLevel::C2 > CefrLevel::C1);
}

#[test]
fn test_cefr_level_code_round_trip() {
    for level in [
        CefrLevel::A1,
        CefrLevel::A2,
        CefrLevel::B1,
        CefrLevel::B2,
        CefrLevel::C1,
        CefrLevel::C2,
    ] {
        assert_eq!(CefrLevel::from_course_name(level.code()), Some(level));
    }
}

#[test]
fn test_lowest_level_wins() {
    assert_eq!(
        CefrLevel::from_course_name("A2_then_A1"),
        Some(CefrLevel::A1)
    );
}

#[test]
fn test_at_least_uses_rank() {
    assert!(CefrLevel::B2.at_least(&CefrLevel::B1));
    assert!(CefrLevel::B1.at_least(&CefrLevel::B1));
    assert!(!CefrLevel::A2.at_least(&CefrLevel::C1));
}
