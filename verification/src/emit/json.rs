//! The parts of the report that is printed as JSON.

use crate::runner::copy_symbols;
use crate::scan::git::DiffStat;
use crate::types::file::{FileEntry, FileEntryView};
use crate::types::symbol::{symbol_views, Symbol, SymbolView};
use vstd::prelude::*;

verus! {

/// The project in numbers.
pub struct ProjectInfo {
    pub path: String,
    pub files_scanned: usize,
    pub large_files_count: usize,
    pub memory_markers_count: usize,
}

/// A large file with its symbols.
pub struct LargeFileEntry {
    pub path: String,
    pub line_count: usize,
    pub language: String,
    pub symbols: Vec<Symbol>,
}

/// A file with markers of high priority, and how many.
pub struct CriticalFile {
    pub path: String,
    pub high_priority_markers: usize,
}

/// A hub, and by how many files it is imported.
pub struct HubFile {
    pub path: String,
    pub imported_by: usize,
}

/// The changes against a revision.
pub struct DiffInfo {
    pub base_ref: String,
    pub files: Vec<DiffStat>,
}

/// The content of a [`LargeFileEntry`].
pub struct LargeFileEntryView {
    pub path: Seq<char>,
    pub line_count: usize,
    pub language: Seq<char>,
    pub symbols: Seq<SymbolView>,
}

impl View for LargeFileEntry {
    type V = LargeFileEntryView;

    open spec fn view(&self) -> LargeFileEntryView {
        LargeFileEntryView {
            path: self.path@,
            line_count: self.line_count,
            language: self.language@,
            symbols: symbol_views(self.symbols@),
        }
    }
}

/// The entry of a large file in the report.
pub open spec fn large_entry(file: FileEntryView, symbols: Seq<SymbolView>) -> LargeFileEntryView {
    LargeFileEntryView {
        path: file.relative_path,
        line_count: file.line_count,
        language: file.language.label(),
        symbols,
    }
}

/// The entries of the large files in the report.
pub fn large_file_entries(files: &[(FileEntry, Vec<Symbol>)]) -> (res: Vec<LargeFileEntry>)
    ensures
        res@.len() == files@.len(),
        forall|i: int|
            0 <= i < files@.len() ==> (#[trigger] res@[i])@ == large_entry(
                files@[i].0@,
                symbol_views(files@[i].1@),
            ),
{
    let mut out: Vec<LargeFileEntry> = Vec::new();
    let mut i: usize = 0;
    while i < files.len()
        invariant
            i <= files@.len(),
            out@.len() == i,
            forall|k: int|
                0 <= k < i ==> (#[trigger] out@[k])@ == large_entry(
                    files@[k].0@,
                    symbol_views(files@[k].1@),
                ),
        decreases files@.len() - i,
    {
        let file = &files[i].0;
        out.push(
            LargeFileEntry {
                path: file.relative_path.clone(),
                line_count: file.line_count,
                language: file.language.as_str().to_owned(),
                symbols: copy_symbols(&files[i].1),
            },
        );
        i += 1;
    }
    out
}

/// The hubs as entries of the report.
pub fn hub_entries(hubs: &Vec<(String, usize)>) -> (res: Vec<HubFile>)
    ensures
        res@.len() == hubs@.len(),
        forall|i: int|
            0 <= i < hubs@.len() ==> (#[trigger] res@[i]).path@ == hubs@[i].0@
                && res@[i].imported_by == hubs@[i].1,
{
    let mut out: Vec<HubFile> = Vec::new();
    let mut i: usize = 0;
    while i < hubs.len()
        invariant
            i <= hubs@.len(),
            out@.len() == i,
            forall|k: int|
                0 <= k < i ==> (#[trigger] out@[k]).path@ == hubs@[k].0@ && out@[k].imported_by
                    == hubs@[k].1,
        decreases hubs@.len() - i,
    {
        out.push(HubFile { path: hubs[i].0.clone(), imported_by: hubs[i].1 });
        i += 1;
    }
    out
}

/// The critical files as entries of the report.
pub fn critical_entries(files: &Vec<(String, usize)>) -> (res: Vec<CriticalFile>)
    ensures
        res@.len() == files@.len(),
        forall|i: int|
            0 <= i < files@.len() ==> (#[trigger] res@[i]).path@ == files@[i].0@
                && res@[i].high_priority_markers == files@[i].1,
{
    let mut out: Vec<CriticalFile> = Vec::new();
    let mut i: usize = 0;
    while i < files.len()
        invariant
            i <= files@.len(),
            out@.len() == i,
            forall|k: int|
                0 <= k < i ==> (#[trigger] out@[k]).path@ == files@[k].0@
                    && out@[k].high_priority_markers == files@[k].1,
        decreases files@.len() - i,
    {
        out.push(CriticalFile { path: files[i].0.clone(), high_priority_markers: files[i].1 });
        i += 1;
    }
    out
}

} // verus!
