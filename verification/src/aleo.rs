//! Helpers that turn certificates and claims into the input layout of the
//! on-chain program: languages as field constants, numbers with their
//! width suffixes.

use vstd::prelude::*;
use crate::cefr::{level_from_course, rank, CefrLevel};
use crate::certificate::Certificate;
use crate::crypto::now_timestamp;
use crate::issuer::certificate_language;
use crate::text::{dec_str, dec_str_exec, eq_ignore_ascii_case_seq, leading_token, str_eq_ignore_ascii_case};

verus! {

pub const PROGRAM_ID: &'static str = "web5claims.aleo";

/// The field constant a language name maps to, matched without regard to
/// case; unknown languages map to the zero field.
pub open spec fn language_field(language: Seq<char>) -> Seq<char> {
    if eq_ignore_ascii_case_seq(language, "german"@) {
        "1field"@
    } else if eq_ignore_ascii_case_seq(language, "spanish"@) {
        "2field"@
    } else if eq_ignore_ascii_case_seq(language, "french"@) {
        "3field"@
    } else if eq_ignore_ascii_case_seq(language, "italian"@) {
        "4field"@
    } else if eq_ignore_ascii_case_seq(language, "english"@) {
        "5field"@
    } else if eq_ignore_ascii_case_seq(language, "portuguese"@) {
        "6field"@
    } else if eq_ignore_ascii_case_seq(language, "dutch"@) {
        "7field"@
    } else if eq_ignore_ascii_case_seq(language, "russian"@) {
        "8field"@
    } else if eq_ignore_ascii_case_seq(language, "chinese"@) {
        "9field"@
    } else if eq_ignore_ascii_case_seq(language, "japanese"@) {
        "10field"@
    } else {
        "0field"@
    }
}

/// Maps a language name to its field constant.
pub fn encode_language_to_field(language: &str) -> (r: &'static str)
    ensures
        r@ == language_field(language@),
{
    if str_eq_ignore_ascii_case(language, "german") {
        "1field"
    } else if str_eq_ignore_ascii_case(language, "spanish") {
        "2field"
    } else if str_eq_ignore_ascii_case(language, "french") {
        "3field"
    } else if str_eq_ignore_ascii_case(language, "italian") {
        "4field"
    } else if str_eq_ignore_ascii_case(language, "english") {
        "5field"
    } else if str_eq_ignore_ascii_case(language, "portuguese") {
        "6field"
    } else if str_eq_ignore_ascii_case(language, "dutch") {
        "7field"
    } else if str_eq_ignore_ascii_case(language, "russian") {
        "8field"
    } else if str_eq_ignore_ascii_case(language, "chinese") {
        "9field"
    } else if str_eq_ignore_ascii_case(language, "japanese") {
        "10field"
    } else {
        "0field"
    }
}

/// A level's numeric rank, for the program's input layout.
pub fn cefr_level_to_u8(level: &CefrLevel) -> (r: u8)
    ensures
        r == rank(*level),
{
    level.to_numeric()
}

/// Relies on the clock through the library's timestamp source; the value
/// is truncated to the program's 32-bit field.
pub fn get_current_timestamp() -> (r: u32) {
    let now = now_timestamp();
    #[verifier::truncate] (now as u32)
}

/// A number with a width suffix, as the program writes its inputs.
pub open spec fn suffixed(n: nat, suffix: Seq<char>) -> Seq<char> {
    dec_str(n) + suffix
}

/// Renders a number with a width suffix.
fn suffixed_exec(n: u64, suffix: &str) -> (r: String)
    ensures
        r@ == suffixed(n as nat, suffix@),
{
    let mut r = dec_str_exec(n);
    r.append(suffix);
    r
}

/// The level a certificate's course identifier encodes, defaulting to
/// the lowest rank when none is named.
pub open spec fn course_rank_or_lowest(course: Seq<char>) -> nat {
    match level_from_course(course) {
        Some(level) => rank(level) as nat,
        None => 1,
    }
}

/// Lays a certificate out as the issuing program's inputs: recipient,
/// language field, level, score, challenge counts, and the moment of
/// issuance.
pub fn certificate_to_leo_inputs(cert: &Certificate, recipient_address: &str) -> (r: Vec<String>)
    ensures
        r@.len() == 7,
        r@[0]@ == recipient_address@,
        r@[1]@ == language_field(certificate_language(*cert)),
        r@[2]@ == suffixed(course_rank_or_lowest(cert.game_path_name@), "u8"@),
        r@[3]@ == suffixed(cert.performance_percentage as nat, "u8"@),
        r@[4]@ == suffixed(cert.total_challenges as nat, "u16"@),
        r@[5]@ == suffixed(cert.solved_challenges as nat, "u16"@),
        exists|moment: nat| r@[6]@ == suffixed(moment, "u32"@),
{
    let language = leading_token(cert.game_path_name.as_str(), '_');
    let level: u8 = match CefrLevel::from_course_name(cert.game_path_name.as_str()) {
        Some(found) => found.to_numeric(),
        None => 1,
    };
    let moment = get_current_timestamp();
    let mut r: Vec<String> = Vec::new();
    r.push(String::from_str(recipient_address));
    r.push(String::from_str(encode_language_to_field(language.as_str())));
    r.push(suffixed_exec(level as u64, "u8"));
    r.push(suffixed_exec(cert.performance_percentage as u64, "u8"));
    r.push(suffixed_exec(cert.total_challenges as u64, "u16"));
    r.push(suffixed_exec(cert.solved_challenges as u64, "u16"));
    r.push(suffixed_exec(moment as u64, "u32"));
    proof {
        assert(r@[6]@ == suffixed(moment as nat, "u32"@));
    }
    r
}

/// Lays a language proficiency claim out as the proving program's
/// inputs.
pub fn language_proof_inputs(language: &str, min_level: &CefrLevel) -> (r: Vec<String>)
    ensures
        r@.len() == 3,
        r@[0]@ == language_field(language@),
        r@[1]@ == suffixed(rank(*min_level) as nat, "u8"@),
        exists|moment: nat| r@[2]@ == suffixed(moment, "u32"@),
{
    let moment = get_current_timestamp();
    let mut r: Vec<String> = Vec::new();
    r.push(String::from_str(encode_language_to_field(language)));
    r.push(suffixed_exec(min_level.to_numeric() as u64, "u8"));
    r.push(suffixed_exec(moment as u64, "u32"));
    proof {
        assert(r@[2]@ == suffixed(moment as nat, "u32"@));
    }
    r
}

/// Lays a performance claim out as the proving program's inputs.
pub fn performance_proof_inputs(language: &str, min_score: u8) -> (r: Vec<String>)
    ensures
        r@.len() == 3,
        r@[0]@ == language_field(language@),
        r@[1]@ == suffixed(min_score as nat, "u8"@),
        exists|moment: nat| r@[2]@ == suffixed(moment, "u32"@),
{
    let moment = get_current_timestamp();
    let mut r: Vec<String> = Vec::new();
    r.push(String::from_str(encode_language_to_field(language)));
    r.push(suffixed_exec(min_score as u64, "u8"));
    r.push(suffixed_exec(moment as u64, "u32"));
    proof {
        assert(r@[2]@ == suffixed(moment as nat, "u32"@));
    }
    r
}

/// Lays a combined claim out as the proving program's inputs.
pub fn combined_proof_inputs(language: &str, min_level: &CefrLevel, min_score: u8) -> (r: Vec<
    String,
>)
    ensures
        r@.len() == 4,
        r@[0]@ == language_field(language@),
        r@[1]@ == suffixed(rank(*min_level) as nat, "u8"@),
        r@[2]@ == suffixed(min_score as nat, "u8"@),
        exists|moment: nat| r@[3]@ == suffixed(moment, "u32"@),
{
    let moment = get_current_timestamp();
    let mut r: Vec<String> = Vec::new();
    r.push(String::from_str(encode_language_to_field(language)));
    r.push(suffixed_exec(min_level.to_numeric() as u64, "u8"));
    r.push(suffixed_exec(min_score as u64, "u8"));
    r.push(suffixed_exec(moment as u64, "u32"));
    proof {
        assert(r@[3]@ == suffixed(moment as nat, "u32"@));
    }
    r
}

} // verus!
