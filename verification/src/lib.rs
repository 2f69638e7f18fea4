//! Structural code analysis for TypeScript and C# sources: entity extraction,
//! structural diffs, duplicate detection, symbol and API change reports.
#![allow(unused_imports)]

pub mod text;
pub mod syntax;
pub mod order;
pub mod parser;
pub mod lang;
pub mod ir;
pub mod manifest;
pub mod differ;
pub mod duplicates;
pub mod detectors;
pub mod architecture;
pub mod input;
pub mod report;
pub mod analysis;
pub mod analyzer_cli;
pub mod git_reader;
pub mod cli;
pub mod explainer;
pub mod html_report;
