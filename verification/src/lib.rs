//! Source-tree analysis and change detection.
//!
//! The crate turns the text of source files into a structured map (symbols,
//! import edges between files, knowledge markers found in comments), groups
//! files into documentation modules, and decides from a persisted manifest
//! which modules changed since the last run. The functions are verified
//! against the contracts they carry; the few calls into the regular
//! expression engine and into the character tables of the standard library
//! stand behind wrappers whose contracts are taken on trust.

pub mod analyze;
pub mod cli;
pub mod config;
pub mod emit;
pub mod generate;
pub mod mcp;
pub mod runner;
pub mod scan;
pub mod strmap;
pub mod telemetry;
pub mod text;
pub mod types;

pub use cli::Args;
pub use config::Config;
pub use types::{FileEntry, Language, MemoryEntry, MemoryKind, Priority, Symbol, SymbolKind};
