//! What the scanner decides without touching the file system.

pub mod filter;
pub mod git;
pub mod remote;
pub mod walker;

pub use filter::should_include_file;
pub use git::{DiffStat, DiffStatus};
pub use remote::{is_remote_url, normalize_git_url};
