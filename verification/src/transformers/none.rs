//! Detects blank values and turns them into omitted fields.

use vstd::prelude::*;

verus! {

use crate::pattern::{Pattern, regex_matches};
use crate::text::{is_blank, str_is_blank};
use crate::transformer::{OutcomeV, TransformResult, Transformer};

/// Turns a value that matches its blank test into an omitted field and
/// passes every other value through unchanged; never fails.
///
/// The built-in blank test accepts a value made only of whitespace and
/// control characters, possibly empty.  A custom test is a regular
/// expression: the field is omitted when the pattern matches.
#[derive(Debug)]
pub struct NoneTransformer {
    pub matcher: Option<Pattern>,
}

impl NoneTransformer {
    /// Whether this transformer omits `value`.
    pub open spec fn omits(&self, value: Seq<char>) -> bool {
        match self.matcher {
            Some(p) => regex_matches(p@, value),
            None => is_blank(value),
        }
    }

    /// A blank detector driven by the given regular expression.
    pub fn new(pattern: Pattern) -> (t: NoneTransformer)
        ensures
            t.matcher == Some(pattern),
    {
        NoneTransformer { matcher: Some(pattern) }
    }

    /// The built-in detector for whitespace- or control-only values.
    pub fn with_blank_matcher() -> (t: NoneTransformer)
        ensures
            t.matcher is None,
    {
        NoneTransformer { matcher: None }
    }
}

impl Transformer for NoneTransformer {
    open spec fn transform_spec(&self, field_value: Seq<char>, field_name: Seq<char>, record_n: int)
        -> OutcomeV {
        if self.omits(field_value) {
            OutcomeV::Excluded
        } else {
            OutcomeV::Present(field_value)
        }
    }

    fn transform(&self, field_value: &str, field_name: &str, record_n: usize) -> (r:
        TransformResult) {
        let omit = match &self.matcher {
            Some(p) => p.is_match(field_value),
            None => str_is_blank(field_value),
        };
        if omit {
            Ok(None)
        } else {
            Ok(Some(field_value.to_owned()))
        }
    }
}

} // verus!
