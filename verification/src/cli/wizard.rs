//! What the interactive setup shows of a project, and what it was asked to
//! do.

use crate::analyze::order::{rank_fn, stable_sort, stable_sort_by, Ranked};
use crate::types::file::{FileEntry, Language};
use vstd::prelude::*;

verus! {

/// A tool for which a template is generated.
#[derive(Debug, Clone, Copy, PartialEq, Eq, Structural)]
pub enum TemplateChoice {
    Cursor,
    OpenCode,
}

impl TemplateChoice {
    pub open spec fn label(self) -> Seq<char> {
        match self {
            TemplateChoice::Cursor => "cursor"@,
            TemplateChoice::OpenCode => "opencode"@,
        }
    }

    /// The file that holds the template of the tool.
    pub open spec fn file_label(self) -> Seq<char> {
        match self {
            TemplateChoice::Cursor => ".cursorrules"@,
            TemplateChoice::OpenCode => "AGENTS.md"@,
        }
    }

    /// The name of the file that holds the template of the tool.
    pub fn filename(&self) -> (res: &'static str)
        ensures
            res@ == self.file_label(),
    {
        match self {
            TemplateChoice::Cursor => ".cursorrules",
            TemplateChoice::OpenCode => "AGENTS.md",
        }
    }

    /// The name of the tool as the templates command takes it.
    pub fn as_template_arg(&self) -> (res: String)
        ensures
            res@ == self.label(),
    {
        match self {
            TemplateChoice::Cursor => "cursor".to_owned(),
            TemplateChoice::OpenCode => "opencode".to_owned(),
        }
    }
}

/// How many languages the setup names.
pub const LEADING_LANGUAGES: usize = 3;

/// A language and the number of files written in it.
#[derive(Debug, Clone, Copy)]
pub struct LanguageCount {
    pub language: Language,
    pub files: usize,
}

impl Ranked for LanguageCount {
    open spec fn rank(&self) -> int {
        usize::MAX - self.files
    }

    fn rank_of(&self) -> (r: usize) {
        usize::MAX - self.files
    }
}

/// How many of the first `n` files are written in `lang`.
pub open spec fn files_in(files: Seq<FileEntry>, lang: Language, n: int) -> nat
    decreases n,
{
    if n <= 0 {
        0
    } else {
        files_in(files, lang, n - 1) + if files[n - 1].language == lang {
            1nat
        } else {
            0nat
        }
    }
}

/// The languages that have a name.
pub open spec fn known_languages() -> Seq<Language> {
    seq![
        Language::Rust,
        Language::Python,
        Language::JavaScript,
        Language::TypeScript,
        Language::Go,
        Language::Php,
        Language::Java,
        Language::CSharp,
        Language::C,
        Language::Cpp,
        Language::Ruby,
        Language::Dart,
        Language::Swift,
    ]
}

/// Of the first `k` known languages, those in which a file is written, each
/// with the number of its files.
pub open spec fn tally(files: Seq<FileEntry>, k: int) -> Seq<LanguageCount>
    decreases k,
{
    if k <= 0 {
        Seq::empty()
    } else {
        let before = tally(files, k - 1);
        let lang = known_languages()[k - 1];
        let count = files_in(files, lang, files.len() as int);
        if count > 0 {
            before.push(LanguageCount { language: lang, files: count as usize })
        } else {
            before
        }
    }
}

/// The three languages with the most files, the one with the most first;
/// of languages with equally many files, the one that is known first.
pub open spec fn leading_languages(files: Seq<FileEntry>) -> Seq<LanguageCount> {
    let ranked = stable_sort_by(
        tally(files, known_languages().len() as int),
        rank_fn::<LanguageCount>(),
    );
    if ranked.len() <= LEADING_LANGUAGES {
        ranked
    } else {
        ranked.subrange(0, LEADING_LANGUAGES as int)
    }
}

/// How many of the files are written in `lang`.
pub fn count_language(files: &[FileEntry], lang: Language) -> (res: usize)
    ensures
        res == files_in(files@, lang, files@.len() as int),
{
    let mut count: usize = 0;
    let mut i: usize = 0;
    while i < files.len()
        invariant
            i <= files@.len(),
            count <= i,
            count == files_in(files@, lang, i as int),
        decreases files@.len() - i,
    {
        if files[i].language == lang {
            count += 1;
        }
        i += 1;
    }
    count
}

/// The languages that have a name, in their order.
pub fn languages() -> (res: Vec<Language>)
    ensures
        res@ == known_languages(),
{
    let mut v: Vec<Language> = Vec::new();
    v.push(Language::Rust);
    v.push(Language::Python);
    v.push(Language::JavaScript);
    v.push(Language::TypeScript);
    v.push(Language::Go);
    v.push(Language::Php);
    v.push(Language::Java);
    v.push(Language::CSharp);
    v.push(Language::C);
    v.push(Language::Cpp);
    v.push(Language::Ruby);
    v.push(Language::Dart);
    v.push(Language::Swift);
    assert(v@ =~= known_languages());
    v
}

/// The three languages in which most of the files are written.
pub fn leading_languages_of(files: &[FileEntry]) -> (res: Vec<LanguageCount>)
    ensures
        res@ == leading_languages(files@),
{
    let langs = languages();
    let mut counts: Vec<LanguageCount> = Vec::new();
    let mut k: usize = 0;
    while k < langs.len()
        invariant
            k <= langs@.len(),
            langs@ == known_languages(),
            counts@ == tally(files@, k as int),
        decreases langs@.len() - k,
    {
        let count = count_language(files, langs[k]);
        if count > 0 {
            counts.push(LanguageCount { language: langs[k], files: count });
        }
        k += 1;
    }
    let mut ranked = stable_sort(counts);
    if ranked.len() > LEADING_LANGUAGES {
        ranked.truncate(LEADING_LANGUAGES);
    }
    ranked
}

/// What to set up.
#[derive(Debug)]
pub struct InitOptions {
    pub create_config: bool,
    pub install_hooks: bool,
    pub templates: Vec<TemplateChoice>,
}

impl InitOptions {
    /// Nothing to set up.
    pub fn new() -> (res: Self)
        ensures
            !res.create_config,
            !res.install_hooks,
            res.templates@.len() == 0,
    {
        InitOptions { create_config: false, install_hooks: false, templates: Vec::new() }
    }

    /// Whether there is nothing to set up.
    pub fn is_empty(&self) -> (res: bool)
        ensures
            res == (!self.create_config && !self.install_hooks && self.templates@.len() == 0),
    {
        !self.create_config && !self.install_hooks && self.templates.len() == 0
    }
}

impl Default for InitOptions {
    fn default() -> (res: Self)
        ensures
            !res.create_config,
            !res.install_hooks,
            res.templates@.len() == 0,
    {
        InitOptions::new()
    }
}

} // verus!
