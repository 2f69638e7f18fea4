//! Structural diffs between the entities of two revisions.
pub mod entity_diff;
