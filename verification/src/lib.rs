//! Oracle for a parser-conformance harness.
//!
//! Given the serialized node-tree lines and the diagnostics a parser actually
//! produced, and the lines and diagnostics a fixture says it should have
//! produced, this library aligns the two sides position by position and
//! classifies every position into a five-valued outcome. A report combines the
//! two classified sequences and derives a single pass/fail verdict.

pub mod errors;
pub mod lines;
pub mod outcome;
pub mod report;
