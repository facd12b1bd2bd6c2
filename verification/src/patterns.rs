//! Compiled regular expressions for the rule engine, wrapped so that a
//! pattern's matching behaviour can be named in contracts: matching is a
//! pure function of the pattern string and the text searched.

use vstd::prelude::*;

verus! {

#[verifier::external_type_specification]
#[verifier::external_body]
pub struct ExRegex(regex::Regex);

/// Whether the regular expression written `pattern` matches anywhere in
/// `text`. The result is a function of the two strings alone.
pub uninterp spec fn regex_match(pattern: Seq<char>, text: Seq<char>) -> bool;

/// Whether `pattern` is a well-formed regular expression that the engine
/// accepts (well-formed and within its size limit).
pub uninterp spec fn regex_valid(pattern: Seq<char>) -> bool;

/// A compiled regular expression, kept together with the pattern string
/// it was compiled from.
pub struct Pattern {
    rx: regex::Regex,
    pattern: String,
}

impl Pattern {
    /// The pattern string this value was compiled from.
    pub closed spec fn spec_pattern(&self) -> Seq<char> {
        self.pattern@
    }

    /// Relies on `regex::Regex::new`: compilation succeeds exactly on the
    /// patterns the engine accepts, and the compiled value matches as its
    /// pattern string prescribes.
    #[verifier::external_body]
    pub fn compile(pattern: &str) -> (r: Option<Pattern>)
        ensures
            r is Some <==> regex_valid(pattern@),
            r matches Some(p) ==> p.spec_pattern() == pattern@,
    {
        match regex::Regex::new(pattern) {
            Ok(rx) => Some(Pattern { rx, pattern: pattern.to_owned() }),
            Err(_) => None,
        }
    }

    /// Relies on `regex::Regex::is_match`: true exactly when the pattern
    /// matches anywhere in `text`, a function of pattern and text alone.
    #[verifier::external_body]
    pub fn is_match(&self, text: &str) -> (r: bool)
        ensures
            r == regex_match(self.spec_pattern(), text@),
    {
        self.rx.is_match(text)
    }

    /// The original pattern string.
    pub fn pattern(&self) -> (r: &str)
        ensures
            r@ == self.spec_pattern(),
    {
        self.pattern.as_str()
    }
}

} // verus!
