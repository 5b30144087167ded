//! Synthesis of builder companions for record types.
//!
//! Given an ordered schema of named, typed fields, the library derives a
//! description of a builder: a slot per field, a setter per field, and a
//! validating build step that either produces a fully populated record or
//! reports the first field, in declaration order, that was never set.

pub mod schema;
pub mod synth;
pub mod runtime;
pub mod laws;
