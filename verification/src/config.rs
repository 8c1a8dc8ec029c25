//! Settings read from the configuration file.

use vstd::prelude::*;

verus! {

/// The name of the configuration file.
pub const CONFIG_FILE_NAME: &'static str = "agentlens.toml";

/// The settings of watch mode.
#[derive(Debug, Clone)]
pub struct WatchConfig {
    pub debounce_ms: Option<u64>,
}

/// The settings of a project; what is `None` or empty was not set.
#[derive(Debug, Clone)]
pub struct Config {
    pub output: Option<String>,
    pub threshold: Option<usize>,
    pub complex_threshold: Option<usize>,
    pub module_depth: Option<usize>,
    pub depth: Option<usize>,
    pub ignore: Vec<String>,
    pub lang: Vec<String>,
    pub no_gitignore: Option<bool>,
    pub watch: Option<WatchConfig>,
}

/// The text of a configuration file in which every setting is commented out.
pub const DEFAULT_CONFIG: &'static str = r#"# agentlens configuration
# See https://github.com/nguyenphutrong/agentlens for documentation

# Output directory for generated documentation
# output = ".agentlens"

# Line threshold for "large" files (generates outline)
# threshold = 500

# Line threshold for L2 file-level docs (very complex files)
# complex_threshold = 1000

# Maximum module nesting depth (0 = unlimited)
# module_depth = 3

# Maximum directory depth (0 = unlimited)  
# depth = 0

# Additional patterns to ignore (in addition to .gitignore)
# ignore = ["*.test.ts", "fixtures/", "__mocks__/"]

# Filter by language (empty = all languages)
# lang = ["rust", "typescript"]

# Don't respect .gitignore
# no_gitignore = false

# Watch mode configuration
# [watch]
# debounce_ms = 300
"#;

impl Config {
    /// The settings of a project that sets nothing.
    pub fn new() -> (res: Self)
        ensures
            res.output.is_none(),
            res.threshold.is_none(),
            res.complex_threshold.is_none(),
            res.module_depth.is_none(),
            res.depth.is_none(),
            res.ignore@.len() == 0,
            res.lang@.len() == 0,
            res.no_gitignore.is_none(),
            res.watch.is_none(),
    {
        Config {
            output: None,
            threshold: None,
            complex_threshold: None,
            module_depth: None,
            depth: None,
            ignore: Vec::new(),
            lang: Vec::new(),
            no_gitignore: None,
            watch: None,
        }
    }

    /// The text of a configuration file to start from.
    pub fn generate_default() -> (res: String)
        ensures
            res@ == DEFAULT_CONFIG@,
    {
        DEFAULT_CONFIG.to_owned()
    }
}

impl Default for Config {
    fn default() -> (res: Self)
        ensures
            res.output.is_none(),
            res.threshold.is_none(),
            res.complex_threshold.is_none(),
            res.module_depth.is_none(),
            res.depth.is_none(),
            res.ignore@.len() == 0,
            res.lang@.len() == 0,
            res.no_gitignore.is_none(),
            res.watch.is_none(),
    {
        Config::new()
    }
}

impl Default for WatchConfig {
    fn default() -> (res: Self)
        ensures
            res.debounce_ms.is_none(),
    {
        WatchConfig { debounce_ms: None }
    }
}

} // verus!
