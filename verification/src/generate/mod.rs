//! The generated documents.

pub mod file_doc;
pub mod index;
pub mod memory;
pub mod module_content;
pub mod outline;

pub use file_doc::{
    file_path_to_slug, generate_file_doc, is_complex_file, truncate_signature,
    DEFAULT_COMPLEX_LINES_THRESHOLD, DEFAULT_COMPLEX_SYMBOLS_THRESHOLD,
};
pub use index::{detect_entry_points, generate_index_md};
pub use memory::{generate_memory, get_critical_files};
pub use module_content::generate_module_content;
pub use outline::generate_outline;
