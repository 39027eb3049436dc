//! Regular expressions, as the `regex` crate has them.
//!
//! A pattern is kept as its text. What the crate makes of a pattern is a
//! function of that text, and whether it matches is a function of the pattern
//! and of what is searched; both carry a name here, which contracts speak of.

use crate::text::Text;
use vstd::prelude::*;

verus! {

/// What the `regex` crate objects to in a pattern; nothing where it takes the
/// pattern.
pub uninterp spec fn regex_refusal(pattern: Seq<char>) -> Option<Seq<char>>;

/// Whether a pattern that the `regex` crate takes has a match anywhere in
/// `hay`.
pub uninterp spec fn regex_matches(pattern: Seq<char>, hay: Seq<char>) -> bool;

/// Calls `regex::Regex::new`, which takes a well-formed pattern within its
/// default size limit and answers any other with an error. The contract names
/// the answer after the pattern: accepted where there is no refusal, and
/// otherwise the error's text. Which patterns are accepted is not said.
#[verifier::external_body]
pub(crate) fn regex_new(pattern: &str) -> (r: Result<(), String>)
    ensures
        match r {
            Ok(_) => regex_refusal(pattern@) is None,
            Err(e) => regex_refusal(pattern@) == Some(e@),
        },
{
    match regex::Regex::new(pattern) {
        Ok(_) => Ok(()),
        Err(e) => Err(e.to_string()),
    }
}

/// Calls `regex::Regex::is_match` on the compiled pattern: true if and only if
/// there is a match anywhere in `hay`. The contract names that answer after
/// the pattern and `hay`; a pattern that does not compile has none.
#[verifier::external_body]
pub(crate) fn regex_is_match(pattern: &str, hay: &str) -> (r: Option<bool>)
    ensures
        r == (if regex_refusal(pattern@) is None {
            Some(regex_matches(pattern@, hay@))
        } else {
            None
        }),
{
    match regex::Regex::new(pattern) {
        Ok(re) => Some(re.is_match(hay)),
        Err(_) => None,
    }
}

/// Whether a pattern compiles and matches.
pub open spec fn fires(pattern: Text, hay: Text) -> bool {
    regex_refusal(pattern) is None && regex_matches(pattern, hay)
}

/// Whether a pattern compiles and matches.
pub fn fires_on(pattern: &str, hay: &str) -> (r: bool)
    ensures
        r == fires(pattern@, hay@),
{
    match regex_is_match(pattern, hay) {
        Some(b) => b,
        None => false,
    }
}

} // verus!
