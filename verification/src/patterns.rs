//! Compiling a search pattern, and what became of it.

use vstd::prelude::*;

verus! {

#[verifier::external_type_specification]
#[verifier::external_body]
pub struct ExRegex(regex::Regex);

#[verifier::external_type_specification]
#[verifier::external_body]
pub struct ExRegexError(regex::Error);

/// `Regex::new` of the regex crate compiles a pattern, or refuses it where
/// its syntax is wrong or the compiled form would pass the default size
/// limit. Nothing is claimed here of which patterns it accepts.
pub assume_specification[ regex::Regex::new ](re: &str) -> (r: Result<regex::Regex, regex::Error>)
;

/// Whether a pattern was taken.
#[derive(Clone, Copy, Debug, PartialEq, Eq, Structural)]
pub enum PatternCheck {
    Accepted,
    Rejected,
}

/// Reads off a compilation's result whether the pattern was taken.
pub fn pattern_check(compiled: &Result<regex::Regex, regex::Error>) -> (r: PatternCheck)
    ensures
        r == (match compiled {
            Ok(_) => PatternCheck::Accepted,
            Err(_) => PatternCheck::Rejected,
        }),
{
    match compiled {
        Ok(_) => PatternCheck::Accepted,
        Err(_) => PatternCheck::Rejected,
    }
}

/// Compiles the pattern `[`, a bracket that is never closed, and says what
/// the compiler made of it.
pub fn correctness_invalid_regex() -> (r: PatternCheck) {
    let compiled = regex::Regex::new("[");
    pattern_check(&compiled)
}

} // verus!
