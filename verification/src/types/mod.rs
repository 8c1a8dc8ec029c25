//! The data model shared by the analysis, the generators and the manifest.

pub mod file;
pub mod memory;
pub mod symbol;

pub use file::{FileEntry, Language};
pub use memory::{MemoryEntry, MemoryEntryView, MemoryKind, Priority};
pub use symbol::{LineRange, Symbol, SymbolKind, SymbolView, Visibility};
