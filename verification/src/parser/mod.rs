//! Extraction of code entities (functions, classes, methods, ...) from source files.
pub mod types;
mod common;
pub mod typescript;
pub mod csharp;
