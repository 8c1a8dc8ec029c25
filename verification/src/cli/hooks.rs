//! Which tool manages the git hooks of a project.

use crate::generate::module_content::joined_lines;
use crate::text::bytes::{
    contains_bytes, find_first, first_occurrence, range_contains, span_text, str_eq, text_between,
};
use crate::text::lines::{lines_of, split_lines};
use crate::text::trim::{trim, trim_range};
use vstd::string::*;
use vstd::utf8::encode_utf8;
use crate::types::file::lit;
use vstd::prelude::*;
use vstd::string::StringSliceAdditionalSpecFns;

verus! {

/// A tool that manages git hooks.
#[derive(Debug, Clone, Copy, PartialEq, Eq, Structural)]
pub enum HookManager {
    Native,
    Husky,
    Lefthook,
    PreCommit,
}

/// What the project directory shows of hook managers.
pub struct HookSigns {
    /// There is a directory `.husky`.
    pub husky_dir: bool,
    /// There is a configuration file of Lefthook.
    pub lefthook_file: bool,
    /// There is a configuration file of pre-commit.
    pub pre_commit_file: bool,
    /// The text of `package.json`, if it could be read.
    pub package_json: Option<String>,
}

impl HookManager {
    pub open spec fn label(self) -> Seq<char> {
        match self {
            HookManager::Native => "native git hooks"@,
            HookManager::Husky => "Husky"@,
            HookManager::Lefthook => "Lefthook"@,
            HookManager::PreCommit => "pre-commit"@,
        }
    }

    pub fn as_str(&self) -> (res: &'static str)
        ensures
            res@ == self.label(),
    {
        match self {
            HookManager::Native => "native git hooks",
            HookManager::Husky => "Husky",
            HookManager::Lefthook => "Lefthook",
            HookManager::PreCommit => "pre-commit",
        }
    }

    /// The manager that the signs point to: Husky by its directory, then
    /// Lefthook and pre-commit by their files, then Husky and Lefthook by
    /// their mention in `package.json`; native hooks where nothing points
    /// elsewhere.
    pub open spec fn detected(
        husky_dir: bool,
        lefthook_file: bool,
        pre_commit_file: bool,
        package_json: Option<Seq<u8>>,
    ) -> HookManager {
        if husky_dir {
            HookManager::Husky
        } else if lefthook_file {
            HookManager::Lefthook
        } else if pre_commit_file {
            HookManager::PreCommit
        } else {
            match package_json {
                Some(text) => if contains_bytes(text, lit("\"husky\"")) {
                    HookManager::Husky
                } else if contains_bytes(text, lit("\"lefthook\"")) {
                    HookManager::Lefthook
                } else {
                    HookManager::Native
                },
                None => HookManager::Native,
            }
        }
    }

    /// The manager that the signs point to.
    pub fn detect(signs: &HookSigns) -> (res: Self)
        ensures
            res == Self::detected(
                signs.husky_dir,
                signs.lefthook_file,
                signs.pre_commit_file,
                match signs.package_json {
                    Some(t) => Some(vstd::utf8::encode_utf8(t@)),
                    None => None,
                },
            ),
    {
        if signs.husky_dir {
            return HookManager::Husky;
        }
        if signs.lefthook_file {
            return HookManager::Lefthook;
        }
        if signs.pre_commit_file {
            return HookManager::PreCommit;
        }
        match &signs.package_json {
            Some(text) => {
                let b = text.as_str().as_bytes();
                let n = b.len();
                assert(b@.subrange(0, n as int) =~= b@);
                if range_contains(b, 0, n, "\"husky\"".as_bytes()) {
                    HookManager::Husky
                } else if range_contains(b, 0, n, "\"lefthook\"".as_bytes()) {
                    HookManager::Lefthook
                } else {
                    HookManager::Native
                }
            },
            None => HookManager::Native,
        }
    }

    /// The manager to install hooks with: the first one asked for, in the
    /// order native, Husky, Lefthook, pre-commit; the detected one where
    /// none is asked for.
    pub fn select(
        native: bool,
        husky: bool,
        lefthook: bool,
        pre_commit: bool,
        detected: Self,
    ) -> (res: Self)
        ensures
            res == if native {
                HookManager::Native
            } else if husky {
                HookManager::Husky
            } else if lefthook {
                HookManager::Lefthook
            } else if pre_commit {
                HookManager::PreCommit
            } else {
                detected
            },
    {
        if native {
            HookManager::Native
        } else if husky {
            HookManager::Husky
        } else if lefthook {
            HookManager::Lefthook
        } else if pre_commit {
            HookManager::PreCommit
        } else {
            detected
        }
    }
}

/// The word by which a hook or a configuration is known to be installed.
pub const HOOK_WORD: &'static str = "agentlens";

/// The first line of a hook script.
pub const SHEBANG: &'static str = "#!/bin/sh";

/// What to do with the file of a hook or of a configuration.
pub enum HookWrite {
    /// Leave the file as it is.
    Skip,
    /// Write this text.
    Write(String),
}

/// The content of a [`HookWrite`].
pub enum HookWriteView {
    Skip,
    Write(Seq<char>),
}

impl View for HookWrite {
    type V = HookWriteView;

    open spec fn view(&self) -> HookWriteView {
        match self {
            HookWrite::Skip => HookWriteView::Skip,
            HookWrite::Write(s) => HookWriteView::Write(s@),
        }
    }
}

/// A text without the white space at its ends.
pub open spec fn trimmed(text: Seq<char>) -> Seq<char> {
    let b = encode_utf8(text);
    let t = trim(b, 0, b.len() as int);
    span_text(b, t.0, t.1)
}

/// `text` without the white space at its ends.
pub fn trim_text(text: &str) -> (res: String)
    ensures
        res@ == trimmed(text@),
{
    let b = text.as_bytes();
    let (lo, hi) = trim_range(b, 0, b.len());
    text_between(text, lo, hi)
}

/// What installing writes: the fresh text where there is no file; nothing
/// where the file names the tool already; else the file, trimmed, with the
/// separator and the addition behind it.
pub open spec fn installed(
    existing: Option<Seq<char>>,
    fresh: Seq<char>,
    separator: Seq<char>,
    addition: Seq<char>,
) -> HookWriteView {
    match existing {
        None => HookWriteView::Write(fresh),
        Some(text) => if contains_bytes(encode_utf8(text), encode_utf8(HOOK_WORD@)) {
            HookWriteView::Skip
        } else {
            HookWriteView::Write(trimmed(text) + separator + addition)
        },
    }
}

/// What to write to install a hook or a configuration, where `existing` is
/// the text of the file, if there is one.
pub fn plan_install(
    existing: Option<&str>,
    fresh: &str,
    separator: &str,
    addition: &str,
) -> (res: HookWrite)
    ensures
        res@ == installed(
            match existing {
                Some(t) => Some(t@),
                None => None,
            },
            fresh@,
            separator@,
            addition@,
        ),
{
    match existing {
        None => HookWrite::Write(fresh.to_owned()),
        Some(text) => {
            let b = text.as_bytes();
            assert(b@.subrange(0, b@.len() as int) =~= b@);
            if range_contains(b, 0, b.len(), HOOK_WORD.as_bytes()) {
                HookWrite::Skip
            } else {
                let mut out = trim_text(text);
                out.append(separator);
                out.append(addition);
                HookWrite::Write(out)
            }
        },
    }
}

/// A script without its first line, the lines joined by line feeds.
pub open spec fn without_first_line(script: Seq<char>) -> Seq<char> {
    let b = encode_utf8(script);
    joined_lines(Seq::empty(), b, lines_of(b), 1, lines_of(b).len() as int)
}

/// `script` without its first line.
pub fn skip_first_line(script: &str) -> (res: String)
    ensures
        res@ == without_first_line(script@),
{
    let bytes = script.as_bytes();
    let lines = split_lines(bytes);
    let n = lines.len();
    let mut out = String::new();
    let mut k: usize = 1;
    while k < n
        invariant
            1 <= k,
            n == lines@.len(),
            bytes@ == script.spec_bytes(),
            lines@ == lines_of(bytes@),
            k <= n || k == 1,
            out@ == joined_lines(Seq::empty(), bytes@, lines@, 1, k as int),
        decreases n - k,
    {
        if k > 1 {
            out.append("\n");
        }
        let t = text_between(script, lines[k].0, lines[k].1);
        out.append(t.as_str());
        k += 1;
    }
    proof {
        if n == 0 {
            assert(joined_lines(Seq::empty(), bytes@, lines@, 1, 0) == Seq::<char>::empty());
            assert(joined_lines(Seq::empty(), bytes@, lines@, 1, 1) == Seq::<char>::empty());
        }
    }
    out
}

/// What to do with a file from which the tool is removed.
pub enum HookRemoval {
    /// Leave the file as it is.
    Keep,
    /// Delete the file.
    Delete,
    /// Write this text.
    Rewrite(String),
}

/// The content of a [`HookRemoval`].
pub enum HookRemovalView {
    Keep,
    Delete,
    Rewrite(Seq<char>),
}

impl View for HookRemoval {
    type V = HookRemovalView;

    open spec fn view(&self) -> HookRemovalView {
        match self {
            HookRemoval::Keep => HookRemovalView::Keep,
            HookRemoval::Delete => HookRemovalView::Delete,
            HookRemoval::Rewrite(s) => HookRemovalView::Rewrite(s@),
        }
    }
}

/// What stands before the first occurrence of a marker, trimmed.
pub open spec fn before_marker(text: Seq<char>, marker: Seq<char>) -> Seq<char> {
    let b = encode_utf8(text);
    let at = first_occurrence(b, encode_utf8(marker), 0);
    let t = trim(b, 0, at);
    span_text(b, t.0, t.1)
}

/// What removing does to a hook script: nothing where the script does not
/// name the tool; where it holds the marker, what stands before the marker
/// stays, unless that is empty or only the first line of a script, then the
/// file goes; a script that names the tool without marker goes.
pub open spec fn script_removed(text: Seq<char>, marker: Seq<char>) -> HookRemovalView {
    let b = encode_utf8(text);
    if !contains_bytes(b, encode_utf8(HOOK_WORD@)) {
        HookRemovalView::Keep
    } else if first_occurrence(b, encode_utf8(marker), 0) > b.len() {
        HookRemovalView::Delete
    } else {
        let rest = before_marker(text, marker);
        if rest.len() == 0 || rest == SHEBANG@ {
            HookRemovalView::Delete
        } else {
            HookRemovalView::Rewrite(rest)
        }
    }
}

fn text_before_marker(text: &str, at: usize) -> (res: String)
    requires
        at <= text.spec_bytes().len(),
    ensures
        res@ == ({
            let b = encode_utf8(text@);
            let t = trim(b, 0, at as int);
            span_text(b, t.0, t.1)
        }),
{
    let b = text.as_bytes();
    let (lo, hi) = trim_range(b, 0, at);
    text_between(text, lo, hi)
}

/// What to do with the hook script `text` to remove the tool from it.
pub fn plan_script_removal(text: &str, marker: &str) -> (res: HookRemoval)
    ensures
        res@ == script_removed(text@, marker@),
{
    let b = text.as_bytes();
    assert(b@.subrange(0, b@.len() as int) =~= b@);
    if !range_contains(b, 0, b.len(), HOOK_WORD.as_bytes()) {
        return HookRemoval::Keep;
    }
    match find_first(b, marker.as_bytes()) {
        None => HookRemoval::Delete,
        Some(at) => {
            let rest = text_before_marker(text, at);
            if rest.as_str().is_empty() || str_eq(rest.as_str(), SHEBANG) {
                HookRemoval::Delete
            } else {
                HookRemoval::Rewrite(rest)
            }
        },
    }
}

/// What removing does to a configuration file: where it holds the marker,
/// what stands before the marker stays, with a line feed behind it; else
/// nothing.
pub open spec fn config_removed(text: Seq<char>, marker: Seq<char>) -> HookRemovalView {
    let b = encode_utf8(text);
    if first_occurrence(b, encode_utf8(marker), 0) > b.len() {
        HookRemovalView::Keep
    } else {
        HookRemovalView::Rewrite(before_marker(text, marker) + "\n"@)
    }
}

/// What to do with the configuration file `text` to remove the tool from
/// it.
pub fn plan_config_removal(text: &str, marker: &str) -> (res: HookRemoval)
    ensures
        res@ == config_removed(text@, marker@),
{
    let b = text.as_bytes();
    match find_first(b, marker.as_bytes()) {
        None => HookRemoval::Keep,
        Some(at) => {
            let mut rest = text_before_marker(text, at);
            rest.append("\n");
            HookRemoval::Rewrite(rest)
        },
    }
}

/// The manager of the hooks of a project, told by what its directory
/// shows.
pub fn detect_hook_manager(signs: &HookSigns) -> (res: HookManager)
    ensures
        res == HookManager::detected(
            signs.husky_dir,
            signs.lefthook_file,
            signs.pre_commit_file,
            match signs.package_json {
                Some(t) => Some(encode_utf8(t@)),
                None => None,
            },
        ),
{
    HookManager::detect(signs)
}

} // verus!
