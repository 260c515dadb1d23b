//! The six-level language proficiency scale, ordered A1 (lowest) to C2
//! (highest), with parsing from course identifiers.

use vstd::prelude::*;
use crate::text::{has_substring, str_contains};

verus! {

/// A proficiency level on the six-step scale.
#[derive(Debug, Clone, Copy, PartialEq, Eq, PartialOrd, Ord, Hash, Structural)]
pub enum CefrLevel {
    A1,
    A2,
    B1,
    B2,
    C1,
    C2,
}

/// Numeric rank of a level, 1 (lowest) through 6 (highest).
pub open spec fn rank(level: CefrLevel) -> int {
    match level {
        CefrLevel::A1 => 1,
        CefrLevel::A2 => 2,
        CefrLevel::B1 => 3,
        CefrLevel::B2 => 4,
        CefrLevel::C1 => 5,
        CefrLevel::C2 => 6,
    }
}

/// The two-character code of a level.
pub open spec fn level_code(level: CefrLevel) -> Seq<char> {
    match level {
        CefrLevel::A1 => "A1"@,
        CefrLevel::A2 => "A2"@,
        CefrLevel::B1 => "B1"@,
        CefrLevel::B2 => "B2"@,
        CefrLevel::C1 => "C1"@,
        CefrLevel::C2 => "C2"@,
    }
}

/// The level a course identifier encodes: the codes are tried in ascending
/// level order and the first that occurs as a substring wins, so an
/// identifier that mentions several levels yields the lowest.
pub open spec fn level_from_course(course: Seq<char>) -> Option<CefrLevel> {
    if has_substring(course, "A1"@) {
        Some(CefrLevel::A1)
    } else if has_substring(course, "A2"@) {
        Some(CefrLevel::A2)
    } else if has_substring(course, "B1"@) {
        Some(CefrLevel::B1)
    } else if has_substring(course, "B2"@) {
        Some(CefrLevel::B2)
    } else if has_substring(course, "C1"@) {
        Some(CefrLevel::C1)
    } else if has_substring(course, "C2"@) {
        Some(CefrLevel::C2)
    } else {
        None
    }
}

impl CefrLevel {
    /// Parses a level out of a course identifier by substring search,
    /// lowest level first.
    pub fn from_course_name(course_name: &str) -> (r: Option<CefrLevel>)
        ensures
            r == level_from_course(course_name@),
    {
        if str_contains(course_name, "A1") {
            Some(CefrLevel::A1)
        } else if str_contains(course_name, "A2") {
            Some(CefrLevel::A2)
        } else if str_contains(course_name, "B1") {
            Some(CefrLevel::B1)
        } else if str_contains(course_name, "B2") {
            Some(CefrLevel::B2)
        } else if str_contains(course_name, "C1") {
            Some(CefrLevel::C1)
        } else if str_contains(course_name, "C2") {
            Some(CefrLevel::C2)
        } else {
            None
        }
    }

    /// The numeric rank, 1 through 6.
    pub fn to_numeric(&self) -> (r: u8)
        ensures
            r == rank(*self),
    {
        match self {
            CefrLevel::A1 => 1,
            CefrLevel::A2 => 2,
            CefrLevel::B1 => 3,
            CefrLevel::B2 => 4,
            CefrLevel::C1 => 5,
            CefrLevel::C2 => 6,
        }
    }

    /// The two-character code, which round-trips with course-identifier
    /// parsing of a bare code.
    pub fn code(&self) -> (r: &'static str)
        ensures
            r@ == level_code(*self),
    {
        match self {
            CefrLevel::A1 => "A1",
            CefrLevel::A2 => "A2",
            CefrLevel::B1 => "B1",
            CefrLevel::B2 => "B2",
            CefrLevel::C1 => "C1",
            CefrLevel::C2 => "C2",
        }
    }

    /// Rank comparison: whether this level meets a required minimum.
    pub fn at_least(&self, other: &CefrLevel) -> (r: bool)
        ensures
            r == (rank(*self) >= rank(*other)),
    {
        self.to_numeric() >= other.to_numeric()
    }
}

/// Ranks order the scale totally: the comparison is reflexive,
/// antisymmetric and transitive, and distinct levels never share a rank.
pub proof fn lemma_rank_is_total_order(a: CefrLevel, b: CefrLevel, c: CefrLevel)
    ensures
        rank(a) >= rank(a),
        rank(a) >= rank(b) && rank(b) >= rank(a) ==> a == b,
        rank(a) >= rank(b) && rank(b) >= rank(c) ==> rank(a) >= rank(c),
        rank(a) >= rank(b) || rank(b) >= rank(a),
        a != b ==> rank(a) != rank(b),
{
}

} // verus!
