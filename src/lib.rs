//! Batching and flattening of patch metadata into build-variant records.
//!
//! The library holds the decisions of the export pipeline: which patch
//! summaries fall inside the lookback window, how identifiers are grouped
//! into lookup rounds, and how each resolved patch becomes flat records.
//! Network access, the message channel and the tabular write are left to
//! the program around it.

pub mod model;
pub mod transform;
pub mod batching;
pub mod producer;
