//! What a run leaves behind: the manifest of module states and the bundle of
//! generated documents.

pub mod json;
pub mod manifest;
pub mod writer;

pub use json::{CriticalFile, DiffInfo, HubFile, LargeFileEntry, ProjectInfo};
pub use manifest::{calculate_module_state, FileStamp, Manifest, ModuleState};
pub use writer::{
    has_legacy_structure, slug_to_dir_name, HierarchicalOutput, ModuleContent, OutputBundle,
};
