//! Compiled path patterns.
//!
//! Matching is delegated to the `regex` crate.  A [`Pattern`] pairs the
//! pattern text with the regex compiled from it; every `Pattern` is built by
//! [`Pattern::new`], so the compiled form always corresponds to the stored
//! text.  What compilation and matching return is named by the two
//! uninterpreted functions below, and every contract in the crate speaks of
//! matching through those names.

use vstd::prelude::*;

verus! {

#[verifier::external_type_specification]
#[verifier::external_body]
pub struct ExRegex(regex::Regex);

/// Whether `regex::Regex::new` accepts the pattern text.
pub uninterp spec fn regex_compiles(pattern: Seq<char>) -> bool;

/// Whether `regex::Regex::is_match` reports a match of the pattern against
/// the text.
pub uninterp spec fn regex_accepts(pattern: Seq<char>, text: Seq<char>) -> bool;

/// A path pattern: the pattern text together with its compiled form.
pub struct Pattern {
    source: String,
    compiled: regex::Regex,
}

impl View for Pattern {
    type V = Seq<char>;

    /// A pattern is abstracted by its text.
    closed spec fn view(&self) -> Seq<char> {
        self.source@
    }
}

impl Pattern {
    /// Relies on regex::Regex::new: whether compilation succeeds is a
    /// function of the pattern text alone.
    #[verifier::external_body]
    pub fn new(pattern: &str) -> (r: Option<Pattern>)
        ensures
            (r is Some) == regex_compiles(pattern@),
            r matches Some(p) ==> p@ == pattern@,
    {
        match regex::Regex::new(pattern) {
            Ok(compiled) => Some(Pattern { source: pattern.to_string(), compiled }),
            Err(_) => None,
        }
    }

    /// Relies on regex::Regex::is_match: the result is a function of the
    /// pattern text and the text searched, and `self.compiled` is the regex
    /// compiled from `self.source` (the only constructor is
    /// [`Pattern::new`]).
    #[verifier::external_body]
    pub fn is_match(&self, text: &str) -> (r: bool)
        ensures
            r == regex_accepts(self@, text@),
    {
        self.compiled.is_match(text)
    }
}

} // verus!
