//! Search patterns, backed by compiled regular expressions.
//!
//! The matching itself is delegated to the `regex` crate. Whether a pattern
//! matches a text is a pure function of the pattern's source and the text,
//! which the specifications name `regex_found` without spelling out the
//! matching semantics.

use vstd::prelude::*;

verus! {

#[verifier::external_type_specification]
#[verifier::external_body]
pub struct ExRegex(regex::Regex);

/// Whether the regular expression written as `pattern` matches anywhere in
/// `text`. The matching semantics are the `regex` crate's; they are a
/// function of the two texts alone.
pub uninterp spec fn regex_found(pattern: Seq<char>, text: Seq<char>) -> bool;

/// Relies on `regex::Regex::new`: compiles the pattern, returning nothing
/// when the pattern is invalid or over the default size limit.
#[verifier::external_body]
fn compile(pattern: &str) -> (r: Option<regex::Regex>) {
    regex::Regex::new(pattern).ok()
}

/// A compiled search pattern, remembering the source text it was built from.
pub struct SearchRule {
    pattern: String,
    rule: regex::Regex,
}

impl SearchRule {
    /// The pattern's source text.
    pub closed spec fn pat(self) -> Seq<char> {
        self.pattern@
    }

    /// Compiles `pattern`; nothing is returned when the `regex` crate
    /// rejects it.
    pub fn new(pattern: &str) -> (r: Option<SearchRule>)
        ensures
            match r {
                Some(rule) => rule.pat() == pattern@,
                None => true,
            },
    {
        match compile(pattern) {
            Some(rule) => Some(SearchRule { pattern: pattern.to_owned(), rule }),
            None => None,
        }
    }

    /// Relies on `regex::Regex::is_match`: true iff the compiled pattern
    /// matches anywhere in `text`; the result depends only on the pattern's
    /// source (`self.pat()`, paired with the compiled regex at construction)
    /// and on `text`.
    #[verifier::external_body]
    pub(crate) fn is_match(&self, text: &str) -> (r: bool)
        ensures
            r == regex_found(self.pat(), text@),
    {
        self.rule.is_match(text)
    }
}

} // verus!
