//! The arguments of the command line.

use crate::analyze::rules::join2;
use crate::config::Config;
use crate::text::bytes::{has_prefix, range_starts_with, str_eq};
use crate::types::file::lit;
use vstd::prelude::*;
use vstd::utf8::encode_utf8;

verus! {

/// What to do with git hooks.
#[derive(Debug, Clone)]
pub enum HooksAction {
    /// Install the hooks, with the manager named or with the one detected.
    Install { native: bool, husky: bool, lefthook: bool, pre_commit: bool },
    /// Remove the hooks.
    Remove,
}

/// What to report of the telemetry.
#[derive(Debug, Clone)]
pub enum TelemetryAction {
    /// The token usage of the generated documents.
    Summary,
    /// The token cost of one module.
    Module { slug: String },
}

/// A subcommand.
#[derive(Debug, Clone)]
pub enum Command {
    Update,
    Watch { debounce: u64 },
    Hooks { action: HooksAction },
    Init { config: bool, hooks: bool, templates: Option<Option<String>>, yes: bool },
    Serve { mcp: bool, port: Option<u16> },
    Telemetry { action: TelemetryAction },
}

/// The output directory where none is given.
pub const DEFAULT_OUTPUT: &'static str = ".agentlens";

/// The line threshold for large files where none is given.
pub const DEFAULT_THRESHOLD: usize = 500;

/// The line threshold for file-level documents where none is given.
pub const DEFAULT_COMPLEX_THRESHOLD: usize = 1000;

/// The depth to which modules nest where none is given.
pub const DEFAULT_MODULE_DEPTH: usize = 3;

/// The arguments of a run.
#[derive(Debug, Clone)]
pub struct Args {
    pub command: Option<Command>,
    /// The directory to analyse, or the address of a repository.
    pub path: String,
    /// The directory for the generated documents.
    pub output: String,
    /// More lines than this make a file large.
    pub threshold: usize,
    /// At least this many lines make a file complex.
    pub complex_threshold: usize,
    /// The depth to which modules nest; 0 for any depth.
    pub module_depth: usize,
    pub ignore: Vec<String>,
    pub lang: Vec<String>,
    pub no_gitignore: bool,
    pub dry_run: bool,
    pub verbose: u8,
    pub quiet: bool,
    pub diff: Option<String>,
    pub json: bool,
    /// The depth to which directories are walked; 0 for any depth.
    pub depth: usize,
    pub force: bool,
    pub config: Option<String>,
    pub check: bool,
}

/// Whether a path is the address of a repository: it begins with
/// `https://`, a host name, or `git@`.
pub open spec fn is_remote_path(path: Seq<u8>) -> bool {
    ||| has_prefix(path, lit("https://"))
    ||| has_prefix(path, lit("github.com"))
    ||| has_prefix(path, lit("gitlab.com"))
    ||| has_prefix(path, lit("git@"))
}

/// What is wrong with the arguments, if anything: a threshold of 0, or a
/// local path that does not exist or is no directory.
pub open spec fn validation(
    path: Seq<char>,
    threshold: usize,
    path_exists: bool,
    path_is_dir: bool,
) -> Result<(), Seq<char>> {
    if is_remote_path(encode_utf8(path)) {
        if threshold == 0 {
            Err("Threshold must be greater than 0"@)
        } else {
            Ok(())
        }
    } else if !path_exists {
        Err("Path does not exist: "@ + path)
    } else if !path_is_dir {
        Err("Path is not a directory: "@ + path)
    } else if threshold == 0 {
        Err("Threshold must be greater than 0"@)
    } else {
        Ok(())
    }
}

/// The number that stands: the setting of the file where there is one and
/// the argument has its default, else the argument.
pub open spec fn picked(current: usize, default: usize, setting: Option<usize>) -> usize {
    match setting {
        Some(s) => if current == default {
            s
        } else {
            current
        },
        None => current,
    }
}

/// The text that stands: the setting of the file where there is one and the
/// argument has its default, else the argument.
pub open spec fn picked_text(
    current: Seq<char>,
    default: Seq<char>,
    setting: Option<String>,
) -> Seq<char> {
    match setting {
        Some(s) => if current == default {
            s@
        } else {
            current
        },
        None => current,
    }
}

/// The list that stands: that of the file where it is not empty and the
/// argument is, else the argument.
pub open spec fn picked_list(current: Vec<String>, setting: Vec<String>) -> Vec<String> {
    if setting@.len() > 0 && current@.len() == 0 {
        setting
    } else {
        current
    }
}

fn pick(current: usize, default: usize, setting: Option<usize>) -> (res: usize)
    ensures
        res == picked(current, default, setting),
{
    match setting {
        Some(s) => if current == default {
            s
        } else {
            current
        },
        None => current,
    }
}

fn pick_text(current: String, default: &str, setting: Option<String>) -> (res: String)
    ensures
        res@ == picked_text(current@, default@, setting),
{
    match setting {
        Some(s) => if str_eq(current.as_str(), default) {
            s
        } else {
            current
        },
        None => current,
    }
}

fn pick_list(current: Vec<String>, setting: Vec<String>) -> (res: Vec<String>)
    ensures
        res == picked_list(current, setting),
{
    if setting.len() > 0 && current.len() == 0 {
        setting
    } else {
        current
    }
}

/// The view of a validation result.
pub open spec fn result_view(r: Result<(), String>) -> Result<(), Seq<char>> {
    match r {
        Ok(()) => Ok(()),
        Err(e) => Err(e@),
    }
}

impl Args {
    /// The arguments of a run in the current directory with every default.
    pub fn new() -> (res: Self)
        ensures
            res.command.is_none(),
            res.path@ == "."@,
            res.output@ == DEFAULT_OUTPUT@,
            res.threshold == DEFAULT_THRESHOLD,
            res.complex_threshold == DEFAULT_COMPLEX_THRESHOLD,
            res.module_depth == DEFAULT_MODULE_DEPTH,
            res.ignore@.len() == 0,
            res.lang@.len() == 0,
            !res.no_gitignore && !res.dry_run && !res.quiet && !res.json && !res.force
                && !res.check,
            res.verbose == 0,
            res.depth == 0,
            res.diff.is_none(),
            res.config.is_none(),
    {
        Args {
            command: None,
            path: ".".to_owned(),
            output: DEFAULT_OUTPUT.to_owned(),
            threshold: DEFAULT_THRESHOLD,
            complex_threshold: DEFAULT_COMPLEX_THRESHOLD,
            module_depth: DEFAULT_MODULE_DEPTH,
            ignore: Vec::new(),
            lang: Vec::new(),
            no_gitignore: false,
            dry_run: false,
            verbose: 0,
            quiet: false,
            diff: None,
            json: false,
            depth: 0,
            force: false,
            config: None,
            check: false,
        }
    }

    /// The arguments with the settings of the configuration file, if there
    /// is one: a setting of the file stands wherever the argument has its
    /// default.
    pub fn with_config(self, config: Option<Config>) -> (res: Self)
        ensures
            match config {
                None => res == self,
                Some(cfg) => {
                    &&& res.output@ == picked_text(self.output@, DEFAULT_OUTPUT@, cfg.output)
                    &&& res.threshold == picked(self.threshold, DEFAULT_THRESHOLD, cfg.threshold)
                    &&& res.complex_threshold == picked(
                        self.complex_threshold,
                        DEFAULT_COMPLEX_THRESHOLD,
                        cfg.complex_threshold,
                    )
                    &&& res.module_depth == picked(
                        self.module_depth,
                        DEFAULT_MODULE_DEPTH,
                        cfg.module_depth,
                    )
                    &&& res.depth == picked(self.depth, 0, cfg.depth)
                    &&& res.ignore == picked_list(self.ignore, cfg.ignore)
                    &&& res.lang == picked_list(self.lang, cfg.lang)
                    &&& res.no_gitignore == (self.no_gitignore || cfg.no_gitignore == Some(true))
                    &&& res.command == self.command
                    &&& res.path == self.path
                    &&& res.dry_run == self.dry_run
                    &&& res.verbose == self.verbose
                    &&& res.quiet == self.quiet
                    &&& res.diff == self.diff
                    &&& res.json == self.json
                    &&& res.force == self.force
                    &&& res.config == self.config
                    &&& res.check == self.check
                },
            },
    {
        let cfg = match config {
            Some(cfg) => cfg,
            None => {
                return self;
            },
        };
        Args {
            command: self.command,
            path: self.path,
            output: pick_text(self.output, DEFAULT_OUTPUT, cfg.output),
            threshold: pick(self.threshold, DEFAULT_THRESHOLD, cfg.threshold),
            complex_threshold: pick(
                self.complex_threshold,
                DEFAULT_COMPLEX_THRESHOLD,
                cfg.complex_threshold,
            ),
            module_depth: pick(self.module_depth, DEFAULT_MODULE_DEPTH, cfg.module_depth),
            ignore: pick_list(self.ignore, cfg.ignore),
            lang: pick_list(self.lang, cfg.lang),
            no_gitignore: self.no_gitignore || cfg.no_gitignore == Some(true),
            dry_run: self.dry_run,
            verbose: self.verbose,
            quiet: self.quiet,
            diff: self.diff,
            json: self.json,
            depth: pick(self.depth, 0, cfg.depth),
            force: self.force,
            config: self.config,
            check: self.check,
        }
    }

    /// How much is reported: nothing where quiet is asked for, else one more
    /// than the number of `-v`, held at 255.
    pub fn verbosity(&self) -> (res: u8)
        ensures
            res == if self.quiet {
                0
            } else if self.verbose == 255 {
                255
            } else {
                self.verbose + 1
            },
    {
        if self.quiet {
            0
        } else if self.verbose == 255 {
            255
        } else {
            self.verbose + 1
        }
    }

    /// Whether the path is the address of a repository.
    pub fn is_remote(&self) -> (res: bool)
        ensures
            res == is_remote_path(encode_utf8(self.path@)),
    {
        let b = self.path.as_str().as_bytes();
        let n = b.len();
        assert(b@.subrange(0, n as int) =~= b@);
        range_starts_with(b, 0, n, "https://".as_bytes()) || range_starts_with(
            b,
            0,
            n,
            "github.com".as_bytes(),
        ) || range_starts_with(b, 0, n, "gitlab.com".as_bytes()) || range_starts_with(
            b,
            0,
            n,
            "git@".as_bytes(),
        )
    }

    /// Checks the arguments, given whether the path exists and is a
    /// directory.
    pub fn validate(&self, path_exists: bool, path_is_dir: bool) -> (res: Result<(), String>)
        ensures
            result_view(res) == validation(self.path@, self.threshold, path_exists, path_is_dir),
    {
        if self.is_remote() {
            if self.threshold == 0 {
                return Err("Threshold must be greater than 0".to_owned());
            }
            return Ok(());
        }
        if !path_exists {
            return Err(join2("Path does not exist: ", self.path.as_str()));
        }
        if !path_is_dir {
            return Err(join2("Path is not a directory: ", self.path.as_str()));
        }
        if self.threshold == 0 {
            return Err("Threshold must be greater than 0".to_owned());
        }
        Ok(())
    }
}

} // verus!
