//! Regular expressions, as the `regex` crate compiles and runs them.
//!
//! Nothing here is proved: the two functions below hand a pattern or a text
//! to the `regex` crate, and their contracts give names to what comes back.

use vstd::prelude::*;
use regex::Regex;

verus! {

/// The compiled form of a regular expression.
#[verifier::external_type_specification]
#[verifier::external_body]
pub struct ExRegex(regex::Regex);

/// Why a pattern could not be compiled.
#[verifier::external_type_specification]
#[verifier::external_body]
pub struct ExRegexError(regex::Error);

/// What `Regex::new` makes of a pattern: the compiled expression, or `None`
/// where it rejects the pattern (malformed, or too large once compiled).
pub uninterp spec fn compiled(pattern: Seq<char>) -> Option<Regex>;

/// Whether `Regex::is_match` finds a match of the expression anywhere in
/// the text.
pub uninterp spec fn regex_matches(regex: Regex, text: Seq<char>) -> bool;

/// Compiles a pattern with `Regex::new`. The outcome depends on the pattern
/// alone: success gives the expression that `compiled` names, failure means
/// that `compiled` is `None` for this pattern.
#[verifier::external_body]
pub(crate) fn compile(pattern: &str) -> (outcome: Result<Regex, regex::Error>)
    ensures
        outcome is Ok ==> compiled(pattern@) == Some(outcome->Ok_0),
        outcome is Err ==> compiled(pattern@) is None,
{
    Regex::new(pattern)
}

/// Runs `Regex::is_match` on a text: true if and only if the expression
/// matches somewhere in it, which is what `regex_matches` names.
#[verifier::external_body]
pub(crate) fn is_match(regex: &Regex, text: &str) -> (found: bool)
    ensures
        found == regex_matches(*regex, text@),
{
    regex.is_match(text)
}

} // verus!
