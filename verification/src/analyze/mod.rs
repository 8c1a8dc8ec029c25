//! Analysis of source text: block ends, symbols, imports, markers, the
//! import graph and the grouping of files into modules.

pub mod engine;
pub mod graph;
pub mod imports;
pub mod lang;
pub mod memory;
pub mod module;
pub mod order;
pub mod parser;
pub mod pattern;
pub mod rules;
pub mod scan;

pub use graph::FileGraph;
pub use memory::extract_memory_markers;
pub use parser::{extract_imports, extract_symbols};
