//! The change manifest that a structural diff produces.
pub mod schema;
