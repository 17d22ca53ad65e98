//! A rule-driven cleaner for delimited tables.
//!
//! A [`Ruleset`] holds prioritized [`Rule`]s, each binding one field
//! transformer to the fields it applies to.  Applying the ruleset to a row
//! yields a [`TransformedRecord`]: the cleaned field values together with a
//! report of every transformation that failed.

pub mod text;
pub mod transformer;
pub mod pattern;
pub mod transformers;
pub mod ruleset;
pub mod laws;

pub use transformer::{Transformer, TransformResult, TransformResultHelper, TransformError};
pub use ruleset::{Rule, Ruleset, TransformedRecord};
