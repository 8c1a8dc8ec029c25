//! Which files are analysed.

use crate::text::ascii::{lower_bytes, lower_range_is};
use crate::types::file::{extension_of, language_of, path_extension, Language};
use vstd::prelude::*;
use vstd::utf8::encode_utf8;

verus! {

impl Language {
    /// The name by which a language is asked for.
    pub open spec fn filter_name(self) -> Seq<char> {
        match self {
            Language::Rust => "rust"@,
            Language::Python => "python"@,
            Language::JavaScript => "javascript"@,
            Language::TypeScript => "typescript"@,
            Language::Go => "go"@,
            Language::Php => "php"@,
            Language::Java => "java"@,
            Language::CSharp => "csharp"@,
            Language::C => "c"@,
            Language::Cpp => "cpp"@,
            Language::Ruby => "ruby"@,
            Language::Dart => "dart"@,
            Language::Swift => "swift"@,
            Language::Unknown => "unknown"@,
        }
    }

    pub fn name(&self) -> (res: &'static str)
        ensures
            res@ == self.filter_name(),
    {
        match self {
            Language::Rust => "rust",
            Language::Python => "python",
            Language::JavaScript => "javascript",
            Language::TypeScript => "typescript",
            Language::Go => "go",
            Language::Php => "php",
            Language::Java => "java",
            Language::CSharp => "csharp",
            Language::C => "c",
            Language::Cpp => "cpp",
            Language::Ruby => "ruby",
            Language::Dart => "dart",
            Language::Swift => "swift",
            Language::Unknown => "unknown",
        }
    }
}

/// Whether one of `allowed`, in any mix of ASCII cases, is `name`.
pub open spec fn allows(allowed: Seq<Seq<char>>, name: Seq<char>) -> bool {
    exists|i: int|
        0 <= i < allowed.len() && lower_bytes(encode_utf8(#[trigger] allowed[i])) == encode_utf8(
            name,
        )
}

/// Whether a file is analysed: its path has an extension of a known
/// language, and the language is asked for, where any is.
pub open spec fn is_included(path: Seq<char>, allowed: Seq<Seq<char>>) -> bool {
    let language = language_of(extension_of(encode_utf8(path)));
    language != Language::Unknown && (allowed.len() == 0 || allows(allowed, language.filter_name()))
}

/// Whether the file `path` is analysed, where `allowed_languages` names the
/// languages asked for, or is empty for all.
pub fn should_include_file(path: &str, allowed_languages: &[String]) -> (res: bool)
    ensures
        res == is_included(path@, allowed_languages@.map_values(|s: String| s@)),
{
    let ghost allowed = allowed_languages@.map_values(|s: String| s@);
    let extension = path_extension(path);
    let language = match &extension {
        Some(e) => Language::from_extension(e.as_str()),
        None => Language::Unknown,
    };
    if language == Language::Unknown {
        return false;
    }
    if allowed_languages.len() == 0 {
        return true;
    }
    let name = language.name().as_bytes();
    let mut i: usize = 0;
    while i < allowed_languages.len()
        invariant
            i <= allowed_languages@.len(),
            allowed_languages@.len() > 0,
            allowed == allowed_languages@.map_values(|s: String| s@),
            language == language_of(extension_of(encode_utf8(path@))),
            language != Language::Unknown,
            name@ == encode_utf8(language.filter_name()),
            forall|k: int|
                0 <= k < i ==> lower_bytes(encode_utf8(#[trigger] allowed[k])) != name@,
        decreases allowed_languages@.len() - i,
    {
        let b = allowed_languages[i].as_str().as_bytes();
        assert(b@.subrange(0, b@.len() as int) =~= b@);
        if lower_range_is(b, 0, b.len(), name) {
            assert(lower_bytes(encode_utf8(allowed[i as int])) == name@);
            return true;
        }
        i += 1;
    }
    false
}

} // verus!
