//! Detectors that compare two revisions: file changes, clones and symbol changes.
pub mod change;
pub mod clone;
pub mod symbol;
