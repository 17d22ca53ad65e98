//! Transformers driven by a configured regular expression.

use vstd::prelude::*;

verus! {

use vstd::string::StringExecFns;
use crate::pattern::{Pattern, regex_expansion, regex_matches};
use crate::transformer::{OutcomeV, TransformResult, Transformer, error_v};

/// The reason reported when a required pattern did not match.
pub open spec fn no_match_reason(pattern: Seq<char>) -> Seq<char> {
    "did not match pattern "@ + pattern
}

/// The reason reported when an exclusionary pattern matched.
pub open spec fn excluded_match_reason(pattern: Seq<char>) -> Seq<char> {
    "matched exclusionary pattern "@ + pattern
}

/// Rewrites a value that matches its pattern by expanding a template with
/// the captured groups; fails when the pattern does not match.
#[derive(Debug)]
pub struct RegexTransformer {
    pub pattern: Pattern,
    pub template: String,
}

impl RegexTransformer {
    pub fn new(pattern: Pattern, template: &str) -> (t: RegexTransformer)
        ensures
            t.pattern == pattern,
            t.template@ == template@,
    {
        RegexTransformer { pattern, template: template.to_owned() }
    }
}

impl Transformer for RegexTransformer {
    open spec fn transform_spec(&self, field_value: Seq<char>, field_name: Seq<char>, record_n: int)
        -> OutcomeV {
        if regex_matches(self.pattern@, field_value) {
            OutcomeV::Present(regex_expansion(self.pattern@, self.template@, field_value))
        } else {
            OutcomeV::Failed(
                error_v(field_value, field_name, record_n, no_match_reason(self.pattern@)),
            )
        }
    }

    fn transform(&self, field_value: &str, field_name: &str, record_n: usize) -> (r:
        TransformResult) {
        match self.pattern.expand_first_match(self.template.as_str(), field_value) {
            Some(expansion) => Ok(Some(expansion)),
            None => {
                let mut reason = String::from_str("did not match pattern ");
                reason.append(self.pattern.source().as_str());
                Err(
                    crate::transformer::TransformError {
                        record_n,
                        field_name: field_name.to_owned(),
                        field_value: field_value.to_owned(),
                        reason,
                    },
                )
            },
        }
    }
}

/// Accepts a value by whether its pattern matches: with `negate` unset the
/// value must match, with `negate` set it must not; the value itself is
/// never changed.
#[derive(Debug)]
pub struct RegexMatchTransformer {
    pub pattern: Pattern,
    pub negate: bool,
}

impl RegexMatchTransformer {
    /// A rule that requires the pattern to match.
    pub fn matching(pattern: Pattern) -> (t: RegexMatchTransformer)
        ensures
            t.pattern == pattern,
            t.negate == false,
    {
        RegexMatchTransformer { pattern, negate: false }
    }

    /// A rule that rejects values matching the pattern.
    pub fn not_matching(pattern: Pattern) -> (t: RegexMatchTransformer)
        ensures
            t.pattern == pattern,
            t.negate == true,
    {
        RegexMatchTransformer { pattern, negate: true }
    }
}

impl Transformer for RegexMatchTransformer {
    open spec fn transform_spec(&self, field_value: Seq<char>, field_name: Seq<char>, record_n: int)
        -> OutcomeV {
        if regex_matches(self.pattern@, field_value) != self.negate {
            OutcomeV::Present(field_value)
        } else {
            OutcomeV::Failed(
                error_v(
                    field_value,
                    field_name,
                    record_n,
                    if self.negate {
                        excluded_match_reason(self.pattern@)
                    } else {
                        no_match_reason(self.pattern@)
                    },
                ),
            )
        }
    }

    fn transform(&self, field_value: &str, field_name: &str, record_n: usize) -> (r:
        TransformResult) {
        let mut is_match = self.pattern.is_match(field_value);
        if self.negate {
            is_match = !is_match;
        }
        if is_match {
            Ok(Some(field_value.to_owned()))
        } else {
            let mut reason = if self.negate {
                String::from_str("matched exclusionary pattern ")
            } else {
                String::from_str("did not match pattern ")
            };
            reason.append(self.pattern.source().as_str());
            Err(
                crate::transformer::TransformError {
                    record_n,
                    field_name: field_name.to_owned(),
                    field_value: field_value.to_owned(),
                    reason,
                },
            )
        }
    }
}

} // verus!
