//! Helpers around course identifiers and certificates: numeric level
//! extraction, display formatting of course names, achievement wording,
//! and the eligibility check for proof generation.

use vstd::prelude::*;
use crate::cefr::{level_from_course, rank, CefrLevel};
use crate::certificate::Certificate;
use crate::text::{replace_seq, replace_str, str_contains, trim_seq, trim_str};

verus! {

/// The numeric rank a course identifier encodes, or zero when it names
/// no level.
pub open spec fn course_rank(course: Seq<char>) -> int {
    match level_from_course(course) {
        Some(level) => rank(level),
        None => 0,
    }
}

/// Reads the numeric proficiency rank out of a course identifier, zero
/// when none is named.
pub fn get_cefr_level_from_course(course_name: &str) -> (r: u8)
    ensures
        r == course_rank(course_name@),
{
    if str_contains(course_name, "A1") {
        1
    } else if str_contains(course_name, "A2") {
        2
    } else if str_contains(course_name, "B1") {
        3
    } else if str_contains(course_name, "B2") {
        4
    } else if str_contains(course_name, "C1") {
        5
    } else if str_contains(course_name, "C2") {
        6
    } else {
        0
    }
}

/// How a course identifier is displayed: underscores become spaces, the
/// completion tag disappears, the difficulty tags gain a dash, and the
/// edges are trimmed.
pub open spec fn formatted_course_name(course: Seq<char>) -> Seq<char> {
    trim_seq(
        replace_seq(
            replace_seq(
                replace_seq(
                    replace_seq(
                        replace_seq(
                            replace_seq(course, "_"@, " "@),
                            "Complete"@,
                            ""@,
                        ),
                        "Basic"@,
                        "- Basic"@,
                    ),
                    "Elementary"@,
                    "- Elementary"@,
                ),
                "Intermediate"@,
                "- Intermediate"@,
            ),
            "Advanced"@,
            "- Advanced"@,
        ),
    )
}

/// Formats a course identifier for display.
pub fn format_course_name(course_name: &str) -> (r: String)
    ensures
        r@ == formatted_course_name(course_name@),
{
    proof {
        reveal_strlit("_");
        reveal_strlit("Complete");
        reveal_strlit("Basic");
        reveal_strlit("Elementary");
        reveal_strlit("Intermediate");
        reveal_strlit("Advanced");
    }
    let spaced = replace_str(course_name, "_", " ");
    let completed = replace_str(spaced.as_str(), "Complete", "");
    let basic = replace_str(completed.as_str(), "Basic", "- Basic");
    let elementary = replace_str(basic.as_str(), "Elementary", "- Elementary");
    let intermediate = replace_str(elementary.as_str(), "Intermediate", "- Intermediate");
    let advanced = replace_str(intermediate.as_str(), "Advanced", "- Advanced");
    trim_str(advanced.as_str())
}

/// The wording for a performance percentage.
pub open spec fn achievement_wording(performance: u8) -> Seq<char> {
    if 95 <= performance <= 100 {
        "Excellent"@
    } else if 90 <= performance <= 94 {
        "Very Good"@
    } else if 80 <= performance <= 89 {
        "Good"@
    } else if 70 <= performance <= 79 {
        "Satisfactory"@
    } else if 60 <= performance <= 69 {
        "Adequate"@
    } else {
        "Needs Improvement"@
    }
}

/// Words a performance percentage for display.
pub fn get_achievement_level(performance: u8) -> (r: &'static str)
    ensures
        r@ == achievement_wording(performance),
{
    if 95 <= performance && performance <= 100 {
        "Excellent"
    } else if 90 <= performance && performance <= 94 {
        "Very Good"
    } else if 80 <= performance && performance <= 89 {
        "Good"
    } else if 70 <= performance && performance <= 79 {
        "Satisfactory"
    } else if 60 <= performance && performance <= 69 {
        "Adequate"
    } else {
        "Needs Improvement"
    }
}

/// Whether a certificate is eligible for proof generation: a passing
/// performance floor, at least one solved challenge, and both names
/// present.
pub open spec fn eligible_for_proof(cert: Certificate) -> bool {
    &&& cert.performance_percentage >= 60
    &&& cert.solved_challenges > 0
    &&& cert.profile_name@.len() > 0
    &&& cert.game_path_name@.len() > 0
}

/// Checks eligibility for proof generation.
pub fn is_certificate_valid_for_zk_proof(cert: &Certificate) -> (r: bool)
    ensures
        r == eligible_for_proof(*cert),
{
    cert.performance_percentage >= 60 && cert.solved_challenges > 0
        && !cert.profile_name.as_str().is_empty() && !cert.game_path_name.as_str().is_empty()
}

} // verus!
