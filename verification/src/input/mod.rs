//! What the analysis reads: changed-file lists, file contents and tracked
//! files as git reports them, and the paths it leaves out.
pub mod filter;
pub mod snapshot;
pub mod git;
