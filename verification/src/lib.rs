//! Prepares an OpenAPI specification document for automated client-library
//! generation: a loader that coerces known-bad nodes of the semi-structured
//! tree and reads it strictly into a typed document model, a patcher that
//! applies three corrective edits across the typed document, and the
//! configuration that selects a generation target and its packaging
//! defaults.

pub mod config;
pub mod model;
pub mod parse;
pub mod patch;
pub mod tree;
