//! The bundle of generated documents, as it is handed to the writer.

use crate::strmap::StrMap;
use vstd::prelude::*;

verus! {

/// The documents of the flat layout.
pub struct OutputBundle {
    pub outline: String,
    pub memory: String,
    pub agents_md: String,
    pub imports: String,
}

/// The documents of one module; an empty document is not written.
#[derive(Debug, Clone)]
pub struct ModuleContent {
    /// The text of `MODULE.md`.
    pub module_md: String,
    /// The text of `outline.md`.
    pub outline: String,
    /// The text of `memory.md`.
    pub memory: String,
    /// The text of `imports.md`.
    pub imports: String,
}

/// The content of a [`ModuleContent`].
pub struct ModuleContentView {
    pub module_md: Seq<char>,
    pub outline: Seq<char>,
    pub memory: Seq<char>,
    pub imports: Seq<char>,
}

impl View for ModuleContent {
    type V = ModuleContentView;

    open spec fn view(&self) -> ModuleContentView {
        ModuleContentView {
            module_md: self.module_md@,
            outline: self.outline@,
            memory: self.memory@,
            imports: self.imports@,
        }
    }
}

impl ModuleContent {
    /// No document.
    pub fn new() -> (res: Self)
        ensures
            res@ == (ModuleContentView {
                module_md: Seq::empty(),
                outline: Seq::empty(),
                memory: Seq::empty(),
                imports: Seq::empty(),
            }),
    {
        ModuleContent {
            module_md: String::new(),
            outline: String::new(),
            memory: String::new(),
            imports: String::new(),
        }
    }

    /// How many of the four documents are written: those that are not
    /// empty.
    pub open spec fn written(self) -> nat {
        (if self@.module_md.len() > 0 {
            1nat
        } else {
            0nat
        }) + (if self@.outline.len() > 0 {
            1nat
        } else {
            0nat
        }) + (if self@.memory.len() > 0 {
            1nat
        } else {
            0nat
        }) + (if self@.imports.len() > 0 {
            1nat
        } else {
            0nat
        })
    }

    /// How many of the four documents are written.
    pub fn written_count(&self) -> (res: usize)
        ensures
            res == self.written(),
            res <= 4,
    {
        let mut count: usize = 0;
        if !self.module_md.as_str().is_empty() {
            count += 1;
        }
        if !self.outline.as_str().is_empty() {
            count += 1;
        }
        if !self.memory.as_str().is_empty() {
            count += 1;
        }
        if !self.imports.as_str().is_empty() {
            count += 1;
        }
        count
    }
}

/// The documents of the hierarchical layout.
pub struct HierarchicalOutput {
    /// The text of `INDEX.md`.
    pub index_md: String,
    /// The documents of each module, by its slug.
    pub modules: StrMap<ModuleContent>,
    /// The documents of complex files, by the slug of the file.
    pub files: StrMap<String>,
}

/// How many documents the first `n` modules have.
pub open spec fn written_in(modules: Seq<(Seq<char>, ModuleContent)>, n: int) -> nat
    decreases n,
{
    if n <= 0 {
        0
    } else {
        written_in(modules, n - 1) + modules[n - 1].1.written()
    }
}

impl HierarchicalOutput {
    /// The output with the index and nothing else.
    pub fn new(index_md: String) -> (res: Self)
        ensures
            res.index_md == index_md,
            res.modules.pairs().len() == 0,
            res.files.pairs().len() == 0,
    {
        HierarchicalOutput { index_md, modules: StrMap::new(), files: StrMap::new() }
    }

    /// Sets the documents of the module `slug`.
    pub fn add_module(&mut self, slug: String, content: ModuleContent)
        ensures
            final(self).modules.pairs() == crate::strmap::put(old(self).modules.pairs(), slug@, content),
            final(self).modules@ == old(self).modules@.insert(slug@, content),
            final(self).files == old(self).files,
            final(self).index_md == old(self).index_md,
    {
        self.modules.insert(slug, content);
    }

    /// Sets the document of the file with the slug `slug`.
    pub fn add_file(&mut self, slug: String, content: String)
        ensures
            final(self).files.pairs() == crate::strmap::put(old(self).files.pairs(), slug@, content),
            final(self).files@ == old(self).files@.insert(slug@, content),
            final(self).modules == old(self).modules,
            final(self).index_md == old(self).index_md,
    {
        self.files.insert(slug, content);
    }

    /// How many files are written: the index, the documents of the modules
    /// that are not empty, and the documents of the files.
    pub open spec fn total(self) -> nat {
        1 + written_in(self.modules.pairs(), self.modules.pairs().len() as int)
            + self.files.pairs().len()
    }

    /// How many files are written, held at the largest `usize`.
    pub fn file_count(&self) -> (res: usize)
        ensures
            res == if self.total() <= usize::MAX {
                self.total()
            } else {
                usize::MAX as nat
            },
    {
        let n = self.modules.len();
        let ghost pairs = self.modules.pairs();
        let mut count: usize = 1;
        let mut i: usize = 0;
        while i < n
            invariant
                i <= n,
                n == pairs.len(),
                pairs == self.modules.pairs(),
                count == if 1 + written_in(pairs, i as int) <= usize::MAX {
                    1 + written_in(pairs, i as int)
                } else {
                    usize::MAX as nat
                },
            decreases n - i,
        {
            let w = self.modules.value_at(i).written_count();
            count = count.saturating_add(w);
            i += 1;
        }
        count.saturating_add(self.files.len())
    }
}

/// Whether an output directory holds the flat layout of an earlier version:
/// it has `AGENTS.md` and no `INDEX.md`.
pub fn has_legacy_structure(has_agents_md: bool, has_index_md: bool) -> (res: bool)
    ensures
        res == (has_agents_md && !has_index_md),
{
    has_agents_md && !has_index_md
}

/// The name of the directory of a module: its slug.
pub fn slug_to_dir_name(slug: &str) -> (res: String)
    ensures
        res@ == slug@,
{
    slug.to_owned()
}

impl Default for ModuleContent {
    fn default() -> (res: Self)
        ensures
            res@ == (ModuleContentView {
                module_md: Seq::empty(),
                outline: Seq::empty(),
                memory: Seq::empty(),
                imports: Seq::empty(),
            }),
    {
        ModuleContent::new()
    }
}

} // verus!
