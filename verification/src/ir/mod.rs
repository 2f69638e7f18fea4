//! The intermediate representation: symbols, spans, findings and per-file analyses.
pub mod model;
pub mod file;
