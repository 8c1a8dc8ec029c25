//! Scanned files and the languages they are written in.

use crate::text::ascii::{lower_bytes, lower_range_is, DOT, SLASH};
use crate::text::bytes::{
    contains_bytes, has_prefix, range_contains, range_starts_with, span_text, text_between,
};
use vstd::prelude::*;
use vstd::string::StringSliceAdditionalSpecFns;

verus! {

/// A language for which files are analysed.
#[derive(Debug, Clone, Copy, PartialEq, Eq, Hash, Structural)]
pub enum Language {
    Rust,
    Python,
    JavaScript,
    TypeScript,
    Go,
    Php,
    Java,
    CSharp,
    C,
    Cpp,
    Ruby,
    Dart,
    Swift,
    Unknown,
}

/// The bytes of a string.
pub open spec fn lit(s: &str) -> Seq<u8> {
    s.spec_bytes()
}

/// The language that a file extension stands for; the extension is given by
/// its bytes, in any mix of ASCII cases.
pub open spec fn language_of_extension(ext: Seq<u8>) -> Language {
    let e = lower_bytes(ext);
    if e == lit("rs") {
        Language::Rust
    } else if e == lit("py") {
        Language::Python
    } else if e == lit("js") || e == lit("jsx") || e == lit("mjs") || e == lit("cjs") {
        Language::JavaScript
    } else if e == lit("ts") || e == lit("tsx") || e == lit("mts") || e == lit("cts") {
        Language::TypeScript
    } else if e == lit("go") {
        Language::Go
    } else if e == lit("php") || e == lit("phtml") {
        Language::Php
    } else if e == lit("java") {
        Language::Java
    } else if e == lit("cs") {
        Language::CSharp
    } else if e == lit("c") {
        Language::C
    } else if e == lit("h") || e == lit("hpp") || e == lit("hh") || e == lit("hxx") {
        Language::Cpp
    } else if e == lit("cpp") || e == lit("cc") || e == lit("cxx") {
        Language::Cpp
    } else if e == lit("rb") {
        Language::Ruby
    } else if e == lit("dart") {
        Language::Dart
    } else if e == lit("swift") {
        Language::Swift
    } else {
        Language::Unknown
    }
}

/// The language that the interpreter line of a script names, if any.
pub open spec fn language_of_shebang(line: Seq<u8>) -> Option<Language> {
    if !has_prefix(line, lit("#!")) {
        None
    } else if contains_bytes(line, lit("python")) {
        Some(Language::Python)
    } else if contains_bytes(line, lit("node")) || contains_bytes(line, lit("deno"))
        || contains_bytes(line, lit("bun")) {
        Some(Language::JavaScript)
    } else if contains_bytes(line, lit("php")) {
        Some(Language::Php)
    } else {
        None
    }
}

impl Language {
    /// The name of the language as it is printed in documentation.
    pub open spec fn label(self) -> Seq<char> {
        match self {
            Language::Rust => "Rust"@,
            Language::Python => "Python"@,
            Language::JavaScript => "JavaScript"@,
            Language::TypeScript => "TypeScript"@,
            Language::Go => "Go"@,
            Language::Php => "Php"@,
            Language::Java => "Java"@,
            Language::CSharp => "CSharp"@,
            Language::C => "C"@,
            Language::Cpp => "Cpp"@,
            Language::Ruby => "Ruby"@,
            Language::Dart => "Dart"@,
            Language::Swift => "Swift"@,
            Language::Unknown => "Unknown"@,
        }
    }

    pub fn as_str(&self) -> (res: &'static str)
        ensures
            res@ == self.label(),
    {
        match self {
            Language::Rust => "Rust",
            Language::Python => "Python",
            Language::JavaScript => "JavaScript",
            Language::TypeScript => "TypeScript",
            Language::Go => "Go",
            Language::Php => "Php",
            Language::Java => "Java",
            Language::CSharp => "CSharp",
            Language::C => "C",
            Language::Cpp => "Cpp",
            Language::Ruby => "Ruby",
            Language::Dart => "Dart",
            Language::Swift => "Swift",
            Language::Unknown => "Unknown",
        }
    }

    pub fn from_extension(ext: &str) -> (res: Self)
        ensures
            res == language_of_extension(ext.spec_bytes()),
    {
        let b = ext.as_bytes();
        let n = b.len();
        assert(b@.subrange(0, n as int) =~= b@);
        if lower_range_is(b, 0, n, "rs".as_bytes()) {
            Language::Rust
        } else if lower_range_is(b, 0, n, "py".as_bytes()) {
            Language::Python
        } else if lower_range_is(b, 0, n, "js".as_bytes()) || lower_range_is(
            b,
            0,
            n,
            "jsx".as_bytes(),
        ) || lower_range_is(b, 0, n, "mjs".as_bytes()) || lower_range_is(
            b,
            0,
            n,
            "cjs".as_bytes(),
        ) {
            Language::JavaScript
        } else if lower_range_is(b, 0, n, "ts".as_bytes()) || lower_range_is(
            b,
            0,
            n,
            "tsx".as_bytes(),
        ) || lower_range_is(b, 0, n, "mts".as_bytes()) || lower_range_is(
            b,
            0,
            n,
            "cts".as_bytes(),
        ) {
            Language::TypeScript
        } else if lower_range_is(b, 0, n, "go".as_bytes()) {
            Language::Go
        } else if lower_range_is(b, 0, n, "php".as_bytes()) || lower_range_is(
            b,
            0,
            n,
            "phtml".as_bytes(),
        ) {
            Language::Php
        } else if lower_range_is(b, 0, n, "java".as_bytes()) {
            Language::Java
        } else if lower_range_is(b, 0, n, "cs".as_bytes()) {
            Language::CSharp
        } else if lower_range_is(b, 0, n, "c".as_bytes()) {
            Language::C
        } else if lower_range_is(b, 0, n, "h".as_bytes()) || lower_range_is(
            b,
            0,
            n,
            "hpp".as_bytes(),
        ) || lower_range_is(b, 0, n, "hh".as_bytes()) || lower_range_is(
            b,
            0,
            n,
            "hxx".as_bytes(),
        ) {
            Language::Cpp
        } else if lower_range_is(b, 0, n, "cpp".as_bytes()) || lower_range_is(
            b,
            0,
            n,
            "cc".as_bytes(),
        ) || lower_range_is(b, 0, n, "cxx".as_bytes()) {
            Language::Cpp
        } else if lower_range_is(b, 0, n, "rb".as_bytes()) {
            Language::Ruby
        } else if lower_range_is(b, 0, n, "dart".as_bytes()) {
            Language::Dart
        } else if lower_range_is(b, 0, n, "swift".as_bytes()) {
            Language::Swift
        } else {
            Language::Unknown
        }
    }

    pub fn from_shebang(first_line: &str) -> (res: Option<Self>)
        ensures
            res == language_of_shebang(first_line.spec_bytes()),
    {
        let b = first_line.as_bytes();
        let n = b.len();
        assert(b@.subrange(0, n as int) =~= b@);
        if !range_starts_with(b, 0, n, "#!".as_bytes()) {
            return None;
        }
        if range_contains(b, 0, n, "python".as_bytes()) {
            Some(Language::Python)
        } else if range_contains(b, 0, n, "node".as_bytes()) || range_contains(
            b,
            0,
            n,
            "deno".as_bytes(),
        ) || range_contains(b, 0, n, "bun".as_bytes()) {
            Some(Language::JavaScript)
        } else if range_contains(b, 0, n, "php".as_bytes()) {
            Some(Language::Php)
        } else {
            None
        }
    }
}

/// The largest offset below `hi` at which `s` holds `b`; -1 if there is none.
pub open spec fn last_index_of(s: Seq<u8>, b: u8, hi: int) -> int
    decreases hi,
{
    if hi <= 0 {
        -1
    } else if s[hi - 1] == b {
        hi - 1
    } else {
        last_index_of(s, b, hi - 1)
    }
}

/// Where the extension of a path begins: behind the last dot of the file
/// name, the part after the last slash. A name without a dot, a name whose
/// only dot is its first byte, and the name `..` have no extension.
pub open spec fn extension_start(path: Seq<u8>) -> Option<int> {
    let name = last_index_of(path, SLASH, path.len() as int) + 1;
    let dot = last_index_of(path, DOT, path.len() as int);
    if dot <= name {
        None
    } else if dot == name + 1 && path[name] == DOT && path.len() == name + 2 {
        None
    } else {
        Some(dot + 1)
    }
}

/// The extension of a path, if it has one.
pub open spec fn extension_of(path: Seq<u8>) -> Option<Seq<char>> {
    match extension_start(path) {
        Some(start) => Some(span_text(path, start, path.len() as int)),
        None => None,
    }
}

/// The largest offset below `hi` at which `bytes` holds `b`, plus one; 0 if
/// there is none.
pub fn after_last(bytes: &[u8], b: u8, hi: usize) -> (res: usize)
    requires
        hi <= bytes@.len(),
    ensures
        res == last_index_of(bytes@, b, hi as int) + 1,
        res <= hi,
{
    let mut i: usize = hi;
    while i > 0
        invariant
            i <= hi <= bytes@.len(),
            last_index_of(bytes@, b, hi as int) == last_index_of(bytes@, b, i as int),
        decreases i,
    {
        if bytes[i - 1] == b {
            return i;
        }
        i -= 1;
    }
    0
}

/// The extension of the file that `path` names.
pub fn path_extension(path: &str) -> (res: Option<String>)
    ensures
        crate::types::symbol::opt_view(res) == extension_of(path.spec_bytes()),
{
    let b = path.as_bytes();
    let n = b.len();
    let name = after_last(b, SLASH, n);
    let after_dot = after_last(b, DOT, n);
    if after_dot == 0 || after_dot - 1 <= name {
        return None;
    }
    if after_dot - 2 == name && b[name] == DOT && n - 2 == name {
        return None;
    }
    Some(text_between(path, after_dot, n))
}

/// One scanned file.
#[derive(Debug, Clone)]
pub struct FileEntry {
    pub path: String,
    pub relative_path: String,
    pub extension: Option<String>,
    pub language: Language,
    pub size_bytes: u64,
    pub line_count: usize,
    pub is_large: bool,
}

/// The mathematical content of a [`FileEntry`].
pub struct FileEntryView {
    pub path: Seq<char>,
    pub relative_path: Seq<char>,
    pub extension: Option<Seq<char>>,
    pub language: Language,
    pub size_bytes: u64,
    pub line_count: usize,
    pub is_large: bool,
}

impl View for FileEntry {
    type V = FileEntryView;

    open spec fn view(&self) -> FileEntryView {
        FileEntryView {
            path: self.path@,
            relative_path: self.relative_path@,
            extension: crate::types::symbol::opt_view(self.extension),
            language: self.language,
            size_bytes: self.size_bytes,
            line_count: self.line_count,
            is_large: self.is_large,
        }
    }
}

/// The language of a file with the given extension; unknown without one.
pub open spec fn language_of(ext: Option<Seq<char>>) -> Language {
    match ext {
        Some(e) => language_of_extension(vstd::utf8::encode_utf8(e)),
        None => Language::Unknown,
    }
}

impl FileEntry {
    /// The entry of a file: extension and language follow from the path, and
    /// the file is large when it has more lines than `threshold`.
    pub fn new(
        path: String,
        relative_path: String,
        size_bytes: u64,
        line_count: usize,
        threshold: usize,
    ) -> (res: Self)
        ensures
            res@ == (FileEntryView {
                path: path@,
                relative_path: relative_path@,
                extension: extension_of(vstd::utf8::encode_utf8(path@)),
                language: language_of(extension_of(vstd::utf8::encode_utf8(path@))),
                size_bytes,
                line_count,
                is_large: line_count > threshold,
            }),
    {
        let extension = path_extension(path.as_str());
        let language = match &extension {
            Some(e) => Language::from_extension(e.as_str()),
            None => Language::Unknown,
        };
        FileEntry {
            path,
            relative_path,
            extension,
            language,
            size_bytes,
            line_count,
            is_large: line_count > threshold,
        }
    }

    /// A copy with the same content.
    pub fn duplicate(&self) -> (res: Self)
        ensures
            res@ == self@,
    {
        FileEntry {
            path: self.path.clone(),
            relative_path: self.relative_path.clone(),
            extension: match &self.extension {
                Some(s) => Some(s.clone()),
                None => None,
            },
            language: self.language,
            size_bytes: self.size_bytes,
            line_count: self.line_count,
            is_large: self.is_large,
        }
    }
}

} // verus!
