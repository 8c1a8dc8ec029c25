//! The command line: its arguments, and what follows from them without
//! touching the file system.

pub mod args;
pub mod hooks;
pub mod templates;
pub mod wizard;

pub use args::{Args, Command, HooksAction, TelemetryAction};
pub use hooks::{detect_hook_manager, HookManager};
pub use templates::{generate_template, plan_template_write, TemplateWrite};
pub use wizard::{leading_languages_of, InitOptions, LanguageCount, TemplateChoice};
