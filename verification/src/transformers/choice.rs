//! Restricts a field to a finite set of allowed values.

use vstd::prelude::*;

verus! {

use vstd::string::StringExecFns;
use crate::text::{render_string_list, render_string_list_exec};
use crate::transformer::{OutcomeV, TransformResult, TransformResultHelper, Transformer, error_v};

/// The reason reported when a value is not among the allowed choices.
pub open spec fn choice_reason(choices: Seq<Seq<char>>) -> Seq<char> {
    "not in valid choices "@ + render_string_list(choices)
}

/// Accepts a value that equals one of the configured choices, passing it
/// through unchanged; fails on any other value, listing the allowed set.
#[derive(Debug)]
pub struct ChoiceTransformer {
    pub choices: Vec<String>,
}

impl ChoiceTransformer {
    pub fn new(choices: Vec<String>) -> (t: ChoiceTransformer)
        ensures
            t.choices == choices,
    {
        ChoiceTransformer { choices }
    }
}

impl Transformer for ChoiceTransformer {
    open spec fn transform_spec(&self, field_value: Seq<char>, field_name: Seq<char>, record_n: int)
        -> OutcomeV {
        if self.choices.deep_view().contains(field_value) {
            OutcomeV::Present(field_value)
        } else {
            OutcomeV::Failed(
                error_v(
                    field_value,
                    field_name,
                    record_n,
                    choice_reason(self.choices.deep_view()),
                ),
            )
        }
    }

    fn transform(&self, field_value: &str, field_name: &str, record_n: usize) -> (r:
        TransformResult) {
        let value = field_value.to_owned();
        let mut found: bool = false;
        let mut i: usize = 0;
        while i < self.choices.len()
            invariant
                value@ == field_value@,
                i <= self.choices.len(),
                found == exists|j: int|
                    0 <= j < i && #[trigger] self.choices.deep_view()[j] == field_value@,
            decreases self.choices.len() - i,
        {
            let hit = self.choices[i].eq(&value);
            proof {
                assert(self.choices.deep_view()[i as int] == self.choices@[i as int]@);
            }
            if hit {
                found = true;
            }
            i = i + 1;
        }
        if found {
            TransformResult::present(field_value)
        } else {
            let mut reason = String::from_str("not in valid choices ");
            let rendered = render_string_list_exec(&self.choices);
            reason.append(rendered.as_str());
            proof {
                assert(!self.choices.deep_view().contains(field_value@));
            }
            Err(
                crate::transformer::TransformError {
                    record_n,
                    field_name: field_name.to_owned(),
                    field_value: field_value.to_owned(),
                    reason,
                },
            )
        }
    }
}

} // verus!
