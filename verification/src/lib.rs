//! Core of a text-annotation service: authenticated users create annotations
//! (documents of free text), define a palette of named, colored labels, and
//! mark non-overlapping token spans within the text, each tagged with one
//! label.
//!
//! The heart of the crate is the aggregate-integrity engine in [`engine`]: it
//! decides whether a label or token mutation on an annotation is admissible
//! and computes the mutated aggregate, keeping the embedded labels and tokens
//! internally consistent: unique label names, a finite non-repeating color
//! palette, interval-based token placement with no overlap, and cascading
//! deletes. HTTP plumbing, credential verification and the document store
//! are external collaborators; the engine receives loaded aggregates and
//! resolved caller identities as plain values and returns the updated
//! aggregate or a typed error.

pub mod common;
pub mod common_validators;
pub mod engine;
pub mod error;
pub mod interval;
pub mod laws;
pub mod model;
pub mod palette;
pub mod string_validator;
pub mod user;
pub mod user_validator;
pub mod validator;
