//! Matching text against a regular expression.

use regex::Regex;
use vstd::prelude::*;

verus! {

/// Whether the regular expression `pattern` has a match anywhere in `text`.
/// This is the answer of the pattern engine; it is defined for patterns
/// that the engine accepts.
pub uninterp spec fn pattern_accepts(pattern: Seq<char>, text: Seq<char>) -> bool;

/// Compiles `pattern` with `regex::Regex::new` and asks `Regex::is_match`
/// whether it matches somewhere in `text`. `None` stands for a pattern that
/// the engine refused; nothing is claimed about when that happens. Where an
/// answer comes back, it is the engine's answer for this pattern and text,
/// which depends on nothing else.
#[verifier::external_body]
pub(crate) fn search(pattern: &str, text: &str) -> (found: Option<bool>)
    ensures
        found matches Some(answer) ==> answer == pattern_accepts(pattern@, text@),
{
    match Regex::new(pattern) {
        Ok(compiled) => Some(compiled.is_match(text)),
        Err(_) => None,
    }
}

} // verus!
