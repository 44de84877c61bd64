//! Query-and-format pipeline for cryptocurrency ticker records.
//!
//! The library normalizes loosely-typed ticker records (field name mapped to
//! an optional text value), indexes them by their `symbol` field, and renders
//! a set of requested symbols through a `{field}` placeholder template,
//! joining the results with a separator.

use vstd::prelude::*;

pub mod errors;
pub mod index;
pub mod options;
pub mod parse;
pub mod record;
pub mod render;
pub mod template;

pub use errors::Error;
pub use errors::TemplateError;
pub use index::RecordIndex;
pub use parse::run_from_body;
pub use record::NormalizedRecord;
pub use record::RawRecord;
pub use render::run_query;

verus! {

} // verus!
