//! Validation of text-editing transformations.
//!
//! A transformation is an ordered list of operations (insert, delete, skip)
//! anchored at a moving cursor. Validating one replays it against a working
//! copy of a starting document and compares the outcome with a claimed
//! target document.
pub mod model;
mod bytes;
pub mod laws;
pub mod validate;

pub use model::{Doc, Ops, Transformation};
pub use validate::{is_valid, validate};
