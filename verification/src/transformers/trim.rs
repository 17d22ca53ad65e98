//! Strips leading and trailing whitespace; always succeeds.

use vstd::prelude::*;

verus! {

use crate::text::{trim, trim_spec};
use crate::transformer::{OutcomeV, TransformResult, Transformer};

/// Replaces a field value with the same value trimmed of leading and
/// trailing whitespace.
#[derive(Debug)]
pub struct TrimTransformer {

}

impl TrimTransformer {
    pub fn new() -> (t: TrimTransformer)
        ensures
            t == (TrimTransformer {  }),
    {
        TrimTransformer {  }
    }
}

impl Transformer for TrimTransformer {
    open spec fn transform_spec(&self, field_value: Seq<char>, field_name: Seq<char>, record_n: int)
        -> OutcomeV {
        OutcomeV::Present(trim_spec(field_value))
    }

    fn transform(&self, field_value: &str, field_name: &str, record_n: usize) -> (r:
        TransformResult) {
        let trimmed = trim(field_value);
        Ok(Some(trimmed))
    }
}

} // verus!
