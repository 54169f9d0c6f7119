//! The trusted interface to the regex crate.
//!
//! Two named results stand for the crate's behaviour: whether it accepts a
//! pattern, and whether an accepted pattern matches anywhere in a text.
//! Both depend on their arguments alone.

use vstd::prelude::*;

verus! {

/// Whether `regex::Regex::new` accepts the pattern.
pub uninterp spec fn regex_valid(pat: Seq<char>) -> bool;

/// Whether the compiled pattern matches anywhere in the text.
pub uninterp spec fn regex_match(pat: Seq<char>, text: Seq<char>) -> bool;

/// An accepted pattern that matches somewhere in the text.  A pattern the
/// regex crate rejects matches nothing.
pub open spec fn pattern_matches(pat: Seq<char>, text: Seq<char>) -> bool {
    regex_valid(pat) && regex_match(pat, text)
}

/// Relies on `regex::Regex::new`: it returns `Ok` exactly on the patterns
/// the crate accepts; the `Err` carries the compiler's description.
#[verifier::external_body]
pub fn compile_check(pattern: &str) -> (r: Result<(), String>)
    ensures
        r is Ok <==> regex_valid(pattern@),
{
    match regex::Regex::new(pattern) {
        Ok(_) => Ok(()),
        Err(e) => Err(format!("{}", e)),
    }
}

/// Relies on `regex::Regex::is_match`: for a pattern the crate accepts,
/// true exactly when the regex matches anywhere in the text; a rejected
/// pattern matches nothing.
#[verifier::external_body]
pub fn pattern_is_match(pattern: &str, text: &str) -> (r: bool)
    ensures
        r == (regex_valid(pattern@) && regex_match(pattern@, text@)),
{
    match regex::Regex::new(pattern) {
        Ok(re) => re.is_match(text),
        Err(_) => false,
    }
}

} // verus!
