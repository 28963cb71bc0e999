//! Checks run on a typed Rib expression.

pub mod exhaustive_pattern_match;
pub mod laws;
pub mod pattern;

pub use self::exhaustive_pattern_match::{
    build_fallback_constructor_details, check_exhaustive_pattern_match,
    check_exhaustive_pattern_match_with_arms, ConstructorDetail, ConstructorPatterns,
    ExhaustivePatternMatchError, ScrutineeType,
};
pub use self::pattern::{ArmPattern, PatternLiteral, PatternView};
