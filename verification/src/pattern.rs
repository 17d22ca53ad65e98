//! A compiled regular expression together with its source text.
//!
//! The contracts speak of the source text alone; what the regex engine
//! decides for a given pattern and haystack is named by uninterpreted
//! functions, since both are deterministic in those two strings.

use vstd::prelude::*;

verus! {

#[verifier::external_type_specification]
#[verifier::external_body]
pub struct ExRegex(regex::Regex);

/// Whether `pattern` is a valid regular expression, as decided by
/// `regex::Regex::new` on the pattern string alone.
pub uninterp spec fn regex_compiles(pattern: Seq<char>) -> bool;

/// Whether the regular expression `pattern` matches anywhere in `text`,
/// as decided by `regex::Regex::is_match`.
pub uninterp spec fn regex_matches(pattern: Seq<char>, text: Seq<char>) -> bool;

/// The expansion of `template` with the capture groups of `pattern`'s first
/// match in `text`, as produced by `regex::Captures::expand`.
pub uninterp spec fn regex_expansion(pattern: Seq<char>, template: Seq<char>, text: Seq<char>)
    -> Seq<char>;

/// A regular expression paired with the source text it was compiled from.
#[derive(Debug)]
pub struct Pattern {
    source: String,
    compiled: regex::Regex,
}

impl View for Pattern {
    type V = Seq<char>;

    closed spec fn view(&self) -> Seq<char> {
        self.source@
    }
}

impl Pattern {
    /// Relies on `regex::Regex::new`: compilation succeeds or fails
    /// depending on the pattern string alone.
    #[verifier::external_body]
    pub fn new(source: &str) -> (r: Option<Pattern>)
        ensures
            r is Some <==> regex_compiles(source@),
            r matches Some(p) ==> p@ == source@,
    {
        match regex::Regex::new(source) {
            Ok(compiled) => Some(Pattern { source: source.to_string(), compiled }),
            Err(_) => None,
        }
    }

    /// Relies on `regex::Regex::is_match`: whether there is a match for the
    /// pattern anywhere in `text`, a function of pattern and text alone.
    #[verifier::external_body]
    pub fn is_match(&self, text: &str) -> (r: bool)
        ensures
            r == regex_matches(self@, text@),
    {
        self.compiled.is_match(text)
    }

    /// Relies on `regex::Regex::captures`, which finds the first match if
    /// and only if `is_match` holds, and `regex::Captures::expand`, which
    /// writes the template expanded with the captured groups.
    #[verifier::external_body]
    pub fn expand_first_match(&self, template: &str, text: &str) -> (r: Option<String>)
        ensures
            r is Some <==> regex_matches(self@, text@),
            r matches Some(s) ==> s@ == regex_expansion(self@, template@, text@),
    {
        match self.compiled.captures(text) {
            Some(caps) => {
                let mut dst = String::new();
                caps.expand(template, &mut dst);
                Some(dst)
            },
            None => None,
        }
    }

    /// The source text the pattern was compiled from.
    pub fn source(&self) -> (r: &String)
        ensures
            r@ == self@,
    {
        &self.source
    }
}

} // verus!
