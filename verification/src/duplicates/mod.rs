//! Duplicate detection: exact clones (same normalised source) and
//! structural clones (same syntax shape, identifiers abstracted).
pub mod normalizer;
pub mod hasher;
pub mod fingerprint;
