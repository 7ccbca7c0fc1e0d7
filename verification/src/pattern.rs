//! Trusted boundary to the regex crate.
//!
//! A compiled regex is opaque here: `regex_source` names the pattern it
//! holds, `regex_valid` names which patterns compile, and `regex_match`
//! names the match relation, a function of pattern and text alone. The
//! wrappers below are the only places that call into the crate.

use vstd::prelude::*;

verus! {

#[verifier::external_type_specification]
#[verifier::external_body]
pub struct ExRegex(regex::Regex);

/// The pattern a compiled regex was built from.
pub uninterp spec fn regex_source(r: regex::Regex) -> Seq<char>;

/// Whether a pattern is valid regex syntax and compiles under the crate's
/// default limits.
pub uninterp spec fn regex_valid(pattern: Seq<char>) -> bool;

/// Whether the pattern matches anywhere in the text.
pub uninterp spec fn regex_match(pattern: Seq<char>, text: Seq<char>) -> bool;

/// Relies on regex::Regex::new: compiling succeeds exactly on valid
/// patterns, and the compiled value holds the pattern it was built from.
/// A failure is reported as the crate's error message.
#[verifier::external_body]
pub(crate) fn regex_new(pattern: &str) -> (r: Result<regex::Regex, String>)
    ensures
        r is Ok <==> regex_valid(pattern@),
        r matches Ok(re) ==> regex_source(re) == pattern@,
{
    match regex::Regex::new(pattern) {
        Ok(re) => Ok(re),
        Err(e) => Err(e.to_string()),
    }
}

/// Relies on regex::Regex::is_match: whether the compiled pattern matches
/// anywhere in the text; the result depends on the pattern and the text
/// alone.
#[verifier::external_body]
pub(crate) fn regex_is_match(re: &regex::Regex, text: &str) -> (r: bool)
    ensures
        r == regex_match(regex_source(*re), text@),
{
    re.is_match(text)
}

/// Relies on regex::Regex::clone: a clone holds the same pattern.
#[verifier::external_body]
pub(crate) fn regex_clone(re: &regex::Regex) -> (r: regex::Regex)
    ensures
        regex_source(r) == regex_source(*re),
{
    re.clone()
}

} // verus!
