//! The outcome model for a single field transformation.
//!
//! Every transformer maps `(field value, field name, record number)` to a
//! [`TransformResult`]: `Ok(Some(v))` for a replacement value, `Ok(None)` for
//! a field that becomes omitted, and `Err(e)` for a failure that is recorded
//! but does not abort the row.

use vstd::prelude::*;

verus! {

/// Structured description of one failed field transformation.
///
/// `field_value` is the value the failing rule received, which is the
/// original row value only until an earlier rule in the field's chain has
/// replaced it.
#[derive(Debug, Clone, PartialEq, Eq)]
pub struct TransformError {
    pub record_n: usize,
    pub field_name: String,
    pub field_value: String,
    pub reason: String,
}

/// Mathematical image of a [`TransformError`].
pub struct TransformErrorV {
    pub record_n: int,
    pub field_name: Seq<char>,
    pub field_value: Seq<char>,
    pub reason: Seq<char>,
}

impl View for TransformError {
    type V = TransformErrorV;

    open spec fn view(&self) -> TransformErrorV {
        TransformErrorV {
            record_n: self.record_n as int,
            field_name: self.field_name@,
            field_value: self.field_value@,
            reason: self.reason@,
        }
    }
}

impl DeepView for TransformError {
    type V = TransformErrorV;

    open spec fn deep_view(&self) -> TransformErrorV {
        self.view()
    }
}

/// The result of transforming one field: a replacement value, an omission,
/// or a structured failure.
pub type TransformResult = Result<Option<String>, TransformError>;

/// The three-way outcome of one field transformation, at the spec level:
/// a present value, an omitted field, or a recorded failure.
pub enum OutcomeV {
    Present(Seq<char>),
    Excluded,
    Failed(TransformErrorV),
}

/// The spec-level reading of a [`TransformResult`].
pub open spec fn outcome_of(r: TransformResult) -> OutcomeV {
    match r {
        Ok(Some(v)) => OutcomeV::Present(v@),
        Ok(None) => OutcomeV::Excluded,
        Err(e) => OutcomeV::Failed(e@),
    }
}

/// The error value every failing transformer builds: the original field
/// value and name, the record number, and a short reason.
pub open spec fn error_v(
    field_value: Seq<char>,
    field_name: Seq<char>,
    record_n: int,
    reason: Seq<char>,
) -> TransformErrorV {
    TransformErrorV { record_n, field_name, field_value, reason }
}

/// Convenience constructors for [`TransformResult`] values.
pub trait TransformResultHelper {
    /// A successful transformation that keeps the field present with `value`.
    fn present(value: &str) -> (r: TransformResult)
        ensures
            outcome_of(r) == OutcomeV::Present(value@),
    {
        Ok(Some(value.to_owned()))
    }

    /// A successful transformation that omits the field.
    fn excluded() -> (r: TransformResult)
        ensures
            outcome_of(r) == OutcomeV::Excluded,
    {
        Ok(None)
    }

    /// A failed transformation, recording the original value and name, the
    /// record number and a short reason without trailing punctuation.
    fn error(field_value: &str, field_name: &str, record_n: usize, reason: &str) -> (r:
        TransformResult)
        ensures
            outcome_of(r) == OutcomeV::Failed(
                error_v(field_value@, field_name@, record_n as int, reason@),
            ),
    {
        Err(
            TransformError {
                record_n,
                field_name: field_name.to_owned(),
                field_value: field_value.to_owned(),
                reason: reason.to_owned(),
            },
        )
    }
}

impl TransformResultHelper for TransformResult {

}

/// One field transformer: a pure function from a field value, its column
/// name and the record number to a [`TransformResult`].  `transform_spec`
/// states the exact outcome; `transform` computes it.
pub trait Transformer {
    spec fn transform_spec(&self, field_value: Seq<char>, field_name: Seq<char>, record_n: int)
        -> OutcomeV;

    fn transform(&self, field_value: &str, field_name: &str, record_n: usize) -> (r:
        TransformResult)
        ensures
            outcome_of(r) == self.transform_spec(field_value@, field_name@, record_n as int),
    ;
}

} // verus!
