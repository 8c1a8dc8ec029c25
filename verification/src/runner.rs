//! One run of the analysis: from the scanned files and their texts to the
//! map of the tree, and from the manifest to the modules to generate anew.

use crate::analyze::graph::{
    counted_views, importers_distinct, note_importers, FileGraph, FileGraphView,
};
use crate::analyze::lang::{
    language_imports, language_symbols, lemma_language_imports_no_repeats, strings_view,
};
use crate::analyze::memory::{entry_views, extract_memory_markers, memory_markers};
use crate::analyze::module::{module_views, ModuleInfo, ModuleInfoView};
use crate::analyze::parser::{extract_imports, extract_symbols};
use crate::emit::manifest::{
    calculate_module_state, is_stale, module_state, stamp_views, FileStamp, FileStampView,
    Manifest, ModuleState,
};
use crate::strmap::{
    distinct_keys, has_key, kept, lemma_kept, lemma_kept_lookup, lemma_map_pairs, lemma_put,
    lookup, map_pairs, put, StrMap,
};
use crate::emit::writer::{HierarchicalOutput, ModuleContent, ModuleContentView};
use crate::generate::file_doc::{
    file_doc, file_path_to_slug, file_slug, generate_file_doc, is_complex_file, public_count,
    DEFAULT_COMPLEX_SYMBOLS_THRESHOLD,
};
use crate::generate::module_content::{generate_module_content, module_content};
use crate::text::bytes::str_eq;
use crate::types::file::{FileEntry, FileEntryView};
use crate::types::memory::{MemoryEntry, MemoryEntryView};
use crate::types::symbol::{symbol_views, Symbol, SymbolView};
use vstd::prelude::*;

verus! {

/// What the analysis of the files yields.
pub struct Analysis {
    /// The markers of all files, file by file.
    pub memory: Vec<MemoryEntry>,
    /// The symbols of each file, by its relative path.
    pub symbols: StrMap<Vec<Symbol>>,
    /// The large files with their symbols.
    pub large_files: Vec<(FileEntry, Vec<Symbol>)>,
    /// The import graph.
    pub graph: FileGraph,
}

/// The content of an [`Analysis`].
pub struct AnalysisView {
    pub memory: Seq<MemoryEntryView>,
    pub symbols: Seq<(Seq<char>, Seq<SymbolView>)>,
    pub large_files: Seq<(FileEntryView, Seq<SymbolView>)>,
    pub graph: FileGraphView,
}

/// The contents of a list of symbols, as a function.
pub open spec fn symbols_content() -> spec_fn(Vec<Symbol>) -> Seq<SymbolView> {
    |v: Vec<Symbol>| symbol_views(v@)
}

/// The contents of files with their symbols.
pub open spec fn large_views(
    s: Seq<(FileEntry, Vec<Symbol>)>,
) -> Seq<(FileEntryView, Seq<SymbolView>)> {
    s.map_values(|e: (FileEntry, Vec<Symbol>)| (e.0@, symbol_views(e.1@)))
}

impl View for Analysis {
    type V = AnalysisView;

    open spec fn view(&self) -> AnalysisView {
        AnalysisView {
            memory: entry_views(self.memory@),
            symbols: map_pairs(self.symbols.pairs(), symbols_content()),
            large_files: large_views(self.large_files@),
            graph: self.graph@,
        }
    }
}

/// The analysis before any file.
pub open spec fn no_analysis() -> AnalysisView {
    AnalysisView {
        memory: Seq::empty(),
        symbols: Seq::empty(),
        large_files: Seq::empty(),
        graph: FileGraphView { imports: Seq::empty(), importers: Seq::empty() },
    }
}

/// The analysis with one more file. A file whose text could not be read adds
/// nothing. A file adds its markers, its symbols under its path, itself with
/// its symbols where it is large, and its imports to the graph unless the
/// graph holds a file of its path already.
pub open spec fn with_analyzed(
    a: AnalysisView,
    file: FileEntryView,
    content: Option<Seq<char>>,
) -> AnalysisView {
    match content {
        None => a,
        Some(text) => {
            let symbols = language_symbols(file.language, text);
            AnalysisView {
                memory: a.memory + memory_markers(text, file.relative_path),
                symbols: put(a.symbols, file.relative_path, symbols),
                large_files: if file.is_large {
                    a.large_files.push((file, symbols))
                } else {
                    a.large_files
                },
                graph: if has_key(a.graph.imports, file.relative_path) {
                    a.graph
                } else {
                    FileGraphView {
                        imports: a.graph.imports.push(
                            (file.relative_path, language_imports(file.language, text)),
                        ),
                        importers: note_importers(
                            a.graph.importers,
                            language_imports(file.language, text),
                            file.relative_path,
                        ),
                    }
                },
            }
        },
    }
}

/// The text of file `i`; none where the list of texts has no entry for it.
pub open spec fn content_at(contents: Seq<Option<Seq<char>>>, i: int) -> Option<Seq<char>> {
    if 0 <= i < contents.len() {
        contents[i]
    } else {
        None
    }
}

/// The analysis of the first `n` files with their texts.
pub open spec fn analyzed(
    files: Seq<FileEntryView>,
    contents: Seq<Option<Seq<char>>>,
    n: int,
) -> AnalysisView
    decreases n,
{
    if n <= 0 {
        no_analysis()
    } else {
        with_analyzed(analyzed(files, contents, n - 1), files[n - 1], content_at(contents, n - 1))
    }
}

/// The contents of scanned files.
pub open spec fn file_views(s: Seq<FileEntry>) -> Seq<FileEntryView> {
    s.map_values(|f: FileEntry| f@)
}

/// The texts held by a list of optional strings.
pub open spec fn content_views(s: Seq<Option<String>>) -> Seq<Option<Seq<char>>> {
    s.map_values(|c: Option<String>| crate::types::symbol::opt_view(c))
}

/// A copy of a list of symbols.
pub fn copy_symbols(v: &Vec<Symbol>) -> (res: Vec<Symbol>)
    ensures
        symbol_views(res@) == symbol_views(v@),
{
    let mut out: Vec<Symbol> = Vec::new();
    let mut i: usize = 0;
    while i < v.len()
        invariant
            i <= v@.len(),
            symbol_views(out@) == symbol_views(v@.take(i as int)),
        decreases v@.len() - i,
    {
        let ghost prev = out@;
        out.push(v[i].duplicate());
        assert(v@.take(i + 1) =~= v@.take(i as int).push(v@[i as int]));
        assert(symbol_views(out@) =~= symbol_views(prev).push(v@[i as int]@));
        assert(symbol_views(v@.take(i + 1)) =~= symbol_views(v@.take(i as int)).push(
            v@[i as int]@,
        ));
        i += 1;
    }
    assert(v@.take(v@.len() as int) =~= v@);
    out
}

/// Adds to `out` the entries of `more`.
pub fn append_entries(out: &mut Vec<MemoryEntry>, more: Vec<MemoryEntry>)
    ensures
        entry_views(final(out)@) == entry_views(old(out)@) + entry_views(more@),
{
    let ghost before = out@;
    let ghost added = more@;
    let mut more = more;
    out.append(&mut more);
    assert(entry_views(out@) =~= entry_views(before) + entry_views(added)) by {
        assert(out@ =~= before + added);
    }
}

/// The analysis of the scanned files, where `contents` holds the text of
/// each file in the order of the files, and none for a file that could not
/// be read.
pub fn analyze_files(files: &[FileEntry], contents: &[Option<String>]) -> (res: Analysis)
    ensures
        res@ == analyzed(file_views(files@), content_views(contents@), files@.len() as int),
        res.graph.wf(),
        importers_distinct(res.graph@.importers),
{
    let mut memory: Vec<MemoryEntry> = Vec::new();
    let mut symbols: StrMap<Vec<Symbol>> = StrMap::new();
    let mut large_files: Vec<(FileEntry, Vec<Symbol>)> = Vec::new();
    let mut graph = FileGraph::new();
    let ghost fv = file_views(files@);
    let ghost cv = content_views(contents@);
    let mut i: usize = 0;
    proof {
        assert(entry_views(memory@) =~= Seq::<MemoryEntryView>::empty());
        assert(map_pairs(symbols.pairs(), symbols_content()) =~= Seq::<
            (Seq<char>, Seq<SymbolView>),
        >::empty());
        assert(large_views(large_files@) =~= Seq::<(FileEntryView, Seq<SymbolView>)>::empty());
    }
    while i < files.len()
        invariant
            i <= files@.len(),
            fv == file_views(files@),
            cv == content_views(contents@),
            graph.wf(),
            importers_distinct(graph@.importers),
            (AnalysisView {
                memory: entry_views(memory@),
                symbols: map_pairs(symbols.pairs(), symbols_content()),
                large_files: large_views(large_files@),
                graph: graph@,
            }) == analyzed(fv, cv, i as int),
        decreases files@.len() - i,
    {
        let file = &files[i];
        let ghost before = analyzed(fv, cv, i as int);
        proof {
            assert(fv[i as int] == file@);
        }
        if i < contents.len() {
            match &contents[i] {
                Some(text) => {
                    proof {
                        assert(cv[i as int] == Some(text@));
                    }
                    let content = text.as_str();
                    let path = file.relative_path.as_str();
                    let markers = extract_memory_markers(content, path);
                    append_entries(&mut memory, markers);
                    let found = extract_symbols(file, content);
                    if !graph.has_file(path) {
                        let imports = extract_imports(file, content);
                        proof {
                            lemma_language_imports_no_repeats(file.language, content@);
                        }
                        graph.add_file(path, imports);
                    }
                    let ghost old_pairs = symbols.pairs();
                    symbols.insert(file.relative_path.clone(), copy_symbols(&found));
                    proof {
                        lemma_map_pairs(old_pairs, symbols_content(), path@);
                    }
                    if file.is_large {
                        let ghost prev = large_files@;
                        large_files.push((file.duplicate(), found));
                        assert(large_views(large_files@) =~= large_views(prev).push(
                            (file@, language_symbols(file.language, content@)),
                        ));
                    }
                },
                None => {
                    proof {
                        assert(cv[i as int].is_none());
                    }
                },
            }
        }
        i += 1;
    }
    Analysis { memory, symbols, large_files, graph }
}

/// The stamps of the files of a module: those of `stamps` whose path is one
/// of `files`, in the order of `stamps`.
pub open spec fn stamps_of(stamps: Seq<FileStampView>, files: Seq<Seq<char>>) -> Seq<FileStampView>
    decreases stamps.len(),
{
    if stamps.len() == 0 {
        stamps
    } else if files.contains(stamps.last().relative_path) {
        stamps_of(stamps.drop_last(), files).push(stamps.last())
    } else {
        stamps_of(stamps.drop_last(), files)
    }
}

/// The slug and current state of each module, in the order of the modules.
pub open spec fn current_states(
    modules: Seq<ModuleInfoView>,
    stamps: Seq<FileStampView>,
) -> Seq<(Seq<char>, ModuleState)> {
    Seq::new(
        modules.len(),
        |i: int| (modules[i].slug, module_state(stamps_of(stamps, modules[i].files))),
    )
}

/// The contents of slugs with their states.
pub open spec fn state_views(s: Seq<(String, ModuleState)>) -> Seq<(Seq<char>, ModuleState)> {
    s.map_values(|e: (String, ModuleState)| (e.0@, e.1))
}

/// The current state of a module, given the stamps of all scanned files.
pub fn state_of_module(module: &ModuleInfo, stamps: &[FileStamp]) -> (res: ModuleState)
    ensures
        res == module_state(stamps_of(stamp_views(stamps@), module@.files)),
{
    let mut own: Vec<FileStamp> = Vec::new();
    let ghost sv = stamp_views(stamps@);
    let mut i: usize = 0;
    proof {
        assert(sv.take(0) =~= Seq::<FileStampView>::empty());
        assert(stamp_views(own@) =~= Seq::<FileStampView>::empty());
    }
    while i < stamps.len()
        invariant
            i <= stamps@.len(),
            sv == stamp_views(stamps@),
            stamp_views(own@) == stamps_of(sv.take(i as int), module@.files),
        decreases stamps@.len() - i,
    {
        let s = &stamps[i];
        proof {
            let t = sv.take(i + 1);
            assert(t.drop_last() =~= sv.take(i as int));
            assert(t.last() == s@);
        }
        if module.contains_file(s.relative_path.as_str()) {
            let ghost prev = own@;
            own.push(FileStamp { relative_path: s.relative_path.clone(), mtime: s.mtime });
            assert(stamp_views(own@) =~= stamp_views(prev).push(s@));
        }
        i += 1;
    }
    proof {
        assert(sv.take(stamps@.len() as int) =~= sv);
    }
    calculate_module_state(own.as_slice())
}

/// The slug and current state of each module.
pub fn module_states(
    modules: &Vec<ModuleInfo>,
    stamps: &[FileStamp],
) -> (res: Vec<(String, ModuleState)>)
    ensures
        state_views(res@) == current_states(module_views(modules@), stamp_views(stamps@)),
{
    let mut out: Vec<(String, ModuleState)> = Vec::new();
    let ghost want = current_states(module_views(modules@), stamp_views(stamps@));
    let mut i: usize = 0;
    while i < modules.len()
        invariant
            i <= modules@.len(),
            want == current_states(module_views(modules@), stamp_views(stamps@)),
            state_views(out@) == want.take(i as int),
        decreases modules@.len() - i,
    {
        let state = state_of_module(&modules[i], stamps);
        let ghost prev = out@;
        out.push((modules[i].slug.clone(), state));
        proof {
            assert(module_views(modules@)[i as int] == modules@[i as int]@);
            assert(state_views(out@) =~= state_views(prev).push((modules@[i as int].slug@, state)));
            assert(want.take(i + 1) =~= want.take(i as int).push(want[i as int]));
        }
        i += 1;
    }
    assert(want.take(modules@.len() as int) =~= want);
    out
}

/// The slugs of the modules that must be generated anew, in the order of
/// `states`.
pub open spec fn stale_slugs(
    recorded: Seq<(Seq<char>, ModuleState)>,
    states: Seq<(Seq<char>, ModuleState)>,
) -> Seq<Seq<char>>
    decreases states.len(),
{
    if states.len() == 0 {
        Seq::empty()
    } else {
        let before = stale_slugs(recorded, states.drop_last());
        if is_stale(recorded, states.last().0, states.last().1) {
            before.push(states.last().0)
        } else {
            before
        }
    }
}

/// The slugs of the modules that must be generated anew: those that the
/// manifest does not know, and those whose state differs from the recorded
/// one.
pub fn plan_regeneration(
    manifest: &Manifest,
    states: &Vec<(String, ModuleState)>,
) -> (res: Vec<String>)
    ensures
        strings_view(res@) == stale_slugs(manifest.modules.pairs(), state_views(states@)),
{
    let mut out: Vec<String> = Vec::new();
    let ghost sv = state_views(states@);
    let mut i: usize = 0;
    proof {
        assert(sv.take(0) =~= Seq::<(Seq<char>, ModuleState)>::empty());
        assert(strings_view(out@) =~= Seq::<Seq<char>>::empty());
    }
    while i < states.len()
        invariant
            i <= states@.len(),
            sv == state_views(states@),
            strings_view(out@) == stale_slugs(manifest.modules.pairs(), sv.take(i as int)),
        decreases states@.len() - i,
    {
        proof {
            let t = sv.take(i + 1);
            assert(t.drop_last() =~= sv.take(i as int));
            assert(t.last() == (states@[i as int].0@, states@[i as int].1));
        }
        if manifest.needs_regeneration(states[i].0.as_str(), &states[i].1) {
            let ghost prev = out@;
            out.push(states[i].0.clone());
            assert(strings_view(out@) =~= strings_view(prev).push(states@[i as int].0@));
        }
        i += 1;
    }
    proof {
        assert(sv.take(states@.len() as int) =~= sv);
    }
    out
}

/// The records after all of `states` were put in, in their order.
pub open spec fn recorded_all(
    recorded: Seq<(Seq<char>, ModuleState)>,
    states: Seq<(Seq<char>, ModuleState)>,
) -> Seq<(Seq<char>, ModuleState)>
    decreases states.len(),
{
    if states.len() == 0 {
        recorded
    } else {
        put(recorded_all(recorded, states.drop_last()), states.last().0, states.last().1)
    }
}

/// The slugs of the states.
pub open spec fn slugs_of(states: Seq<(Seq<char>, ModuleState)>) -> Seq<Seq<char>> {
    states.map_values(|e: (Seq<char>, ModuleState)| e.0)
}

/// The records that a run leaves: the states of the current modules, and
/// nothing of modules that are gone.
pub open spec fn after_run(
    recorded: Seq<(Seq<char>, ModuleState)>,
    states: Seq<(Seq<char>, ModuleState)>,
) -> Seq<(Seq<char>, ModuleState)> {
    kept(recorded_all(recorded, states), slugs_of(states))
}

/// Records a run in the manifest: the version and the time, the state of
/// each current module, and no module that is gone.
pub fn record_run(
    manifest: &mut Manifest,
    version: String,
    generated_at: u64,
    states: &Vec<(String, ModuleState)>,
)
    ensures
        final(manifest).version == version,
        final(manifest).generated_at == generated_at,
        final(manifest).modules.pairs() == after_run(
            old(manifest).modules.pairs(),
            state_views(states@),
        ),
        final(manifest).modules.wf(),
{
    manifest.version = version;
    manifest.generated_at = generated_at;
    let ghost start = manifest.modules.pairs();
    let ghost sv = state_views(states@);
    let mut slugs: Vec<String> = Vec::new();
    let mut i: usize = 0;
    proof {
        assert(sv.take(0) =~= Seq::<(Seq<char>, ModuleState)>::empty());
        assert(strings_view(slugs@) =~= slugs_of(sv.take(0)));
    }
    while i < states.len()
        invariant
            i <= states@.len(),
            sv == state_views(states@),
            manifest.version == version,
            manifest.generated_at == generated_at,
            manifest.modules.pairs() == recorded_all(start, sv.take(i as int)),
            strings_view(slugs@) == slugs_of(sv.take(i as int)),
        decreases states@.len() - i,
    {
        proof {
            let t = sv.take(i + 1);
            assert(t.drop_last() =~= sv.take(i as int));
            assert(t.last() == (states@[i as int].0@, states@[i as int].1));
            assert(slugs_of(t) =~= slugs_of(sv.take(i as int)).push(states@[i as int].0@));
        }
        manifest.update_module(states[i].0.clone(), states[i].1);
        let ghost prev = slugs@;
        slugs.push(states[i].0.clone());
        assert(strings_view(slugs@) =~= strings_view(prev).push(states@[i as int].0@));
        i += 1;
    }
    proof {
        assert(sv.take(states@.len() as int) =~= sv);
        assert(slugs@.map_values(|s: String| s@) =~= strings_view(slugs@));
    }
    manifest.prune_modules(slugs.as_slice());
}

/// Putting states in keeps the keys distinct, and leaves for each slug the
/// state that was put in last.
pub proof fn lemma_recorded_all(
    recorded: Seq<(Seq<char>, ModuleState)>,
    states: Seq<(Seq<char>, ModuleState)>,
)
    requires
        distinct_keys(recorded),
        distinct_keys(states),
    ensures
        distinct_keys(recorded_all(recorded, states)),
        forall|i: int|
            0 <= i < states.len() ==> lookup(recorded_all(recorded, states), (#[trigger] states[i]).0)
                == Some(states[i].1),
    decreases states.len(),
{
    if states.len() > 0 {
        let init = states.drop_last();
        assert(distinct_keys(init)) by {
            assert forall|i: int, j: int| 0 <= i < j < init.len() implies init[i].0 != init[j].0 by {
                assert(init[i] == states[i] && init[j] == states[j]);
            }
        }
        lemma_recorded_all(recorded, init);
        let r0 = recorded_all(recorded, init);
        lemma_put(r0, states.last().0, states.last().1);
        assert forall|i: int| 0 <= i < states.len() implies lookup(
            recorded_all(recorded, states),
            (#[trigger] states[i]).0,
        ) == Some(states[i].1) by {
            if i < init.len() {
                assert(init[i] == states[i]);
                assert(states[i].0 != states[states.len() - 1].0);
            }
        }
    }
}

/// No module is stale against the records of the run that recorded it.
pub proof fn lemma_stale_slugs_empty(
    recorded: Seq<(Seq<char>, ModuleState)>,
    states: Seq<(Seq<char>, ModuleState)>,
)
    requires
        forall|i: int| 0 <= i < states.len() ==> !is_stale(recorded, (#[trigger] states[i]).0, states[i].1),
    ensures
        stale_slugs(recorded, states) == Seq::<Seq<char>>::empty(),
    decreases states.len(),
{
    if states.len() > 0 {
        let init = states.drop_last();
        assert forall|i: int| 0 <= i < init.len() implies !is_stale(
            recorded,
            (#[trigger] init[i]).0,
            init[i].1,
        ) by {
            assert(init[i] == states[i]);
        }
        lemma_stale_slugs_empty(recorded, init);
        assert(states.last() == states[states.len() - 1]);
    }
}

/// A second run over unchanged files generates nothing anew: after a run is
/// recorded, no module whose state is what it was in that run is stale.
pub proof fn lemma_second_run_is_idle(
    recorded: Seq<(Seq<char>, ModuleState)>,
    states: Seq<(Seq<char>, ModuleState)>,
)
    requires
        distinct_keys(recorded),
        distinct_keys(states),
    ensures
        stale_slugs(after_run(recorded, states), states) == Seq::<Seq<char>>::empty(),
        distinct_keys(after_run(recorded, states)),
{
    lemma_recorded_all(recorded, states);
    let all = recorded_all(recorded, states);
    let slugs = slugs_of(states);
    lemma_kept(all, slugs);
    let after = after_run(recorded, states);
    assert forall|i: int| 0 <= i < states.len() implies !is_stale(
        after,
        (#[trigger] states[i]).0,
        states[i].1,
    ) by {
        lemma_kept_lookup(all, slugs, states[i].0);
        assert(slugs[i] == states[i].0);
        assert(slugs.contains(states[i].0));
    }
    lemma_stale_slugs_empty(after, states);
}

/// After a run the manifest holds a record for each current module and for
/// no other.
pub proof fn lemma_after_run_matches_modules(
    recorded: Seq<(Seq<char>, ModuleState)>,
    states: Seq<(Seq<char>, ModuleState)>,
    slug: Seq<char>,
)
    requires
        distinct_keys(recorded),
        distinct_keys(states),
    ensures
        has_key(after_run(recorded, states), slug) <==> slugs_of(states).contains(slug),
{
    lemma_recorded_all(recorded, states);
    let all = recorded_all(recorded, states);
    let slugs = slugs_of(states);
    lemma_kept_lookup(all, slugs, slug);
    if slugs.contains(slug) {
        let i = choose|i: int| 0 <= i < slugs.len() && slugs[i] == slug;
        assert(states[i].0 == slug);
        assert(lookup(all, slug) == Some(states[i].1));
    }
}

/// What a check of the documentation against the tree finds.
pub struct CheckResult {
    /// Whether anything must be generated anew or is left over.
    pub is_stale: bool,
    /// The modules whose state differs from the recorded one.
    pub stale_modules: Vec<String>,
    /// The modules that the manifest does not know.
    pub new_modules: Vec<String>,
    /// The modules that the manifest knows and that are gone.
    pub removed_modules: Vec<String>,
}

/// The slugs of `states` that are stale and recorded (`known`) or stale and
/// not recorded.
pub open spec fn stale_by_kind(
    recorded: Seq<(Seq<char>, ModuleState)>,
    states: Seq<(Seq<char>, ModuleState)>,
    known: bool,
) -> Seq<Seq<char>>
    decreases states.len(),
{
    if states.len() == 0 {
        Seq::empty()
    } else {
        let before = stale_by_kind(recorded, states.drop_last(), known);
        let s = states.last();
        if is_stale(recorded, s.0, s.1) && has_key(recorded, s.0) == known {
            before.push(s.0)
        } else {
            before
        }
    }
}

/// The recorded slugs that are none of `current`, in the order of the
/// records.
pub open spec fn gone_slugs(
    recorded: Seq<(Seq<char>, ModuleState)>,
    current: Seq<Seq<char>>,
) -> Seq<Seq<char>>
    decreases recorded.len(),
{
    if recorded.len() == 0 {
        Seq::empty()
    } else {
        let before = gone_slugs(recorded.drop_last(), current);
        if current.contains(recorded.last().0) {
            before
        } else {
            before.push(recorded.last().0)
        }
    }
}

/// Checks the manifest against the current states of the modules: which
/// modules changed, which are new, and which are gone.
pub fn check_staleness(
    manifest: &Manifest,
    states: &Vec<(String, ModuleState)>,
) -> (res: CheckResult)
    ensures
        strings_view(res.stale_modules@) == stale_by_kind(
            manifest.modules.pairs(),
            state_views(states@),
            true,
        ),
        strings_view(res.new_modules@) == stale_by_kind(
            manifest.modules.pairs(),
            state_views(states@),
            false,
        ),
        strings_view(res.removed_modules@) == gone_slugs(
            manifest.modules.pairs(),
            slugs_of(state_views(states@)),
        ),
        res.is_stale == (res.stale_modules@.len() > 0 || res.new_modules@.len() > 0
            || res.removed_modules@.len() > 0),
{
    let mut stale_modules: Vec<String> = Vec::new();
    let mut new_modules: Vec<String> = Vec::new();
    let ghost recorded = manifest.modules.pairs();
    let ghost sv = state_views(states@);
    let mut i: usize = 0;
    proof {
        assert(sv.take(0) =~= Seq::<(Seq<char>, ModuleState)>::empty());
        assert(strings_view(stale_modules@) =~= Seq::<Seq<char>>::empty());
        assert(strings_view(new_modules@) =~= Seq::<Seq<char>>::empty());
    }
    while i < states.len()
        invariant
            i <= states@.len(),
            sv == state_views(states@),
            recorded == manifest.modules.pairs(),
            strings_view(stale_modules@) == stale_by_kind(recorded, sv.take(i as int), true),
            strings_view(new_modules@) == stale_by_kind(recorded, sv.take(i as int), false),
        decreases states@.len() - i,
    {
        proof {
            let t = sv.take(i + 1);
            assert(t.drop_last() =~= sv.take(i as int));
            assert(t.last() == (states@[i as int].0@, states@[i as int].1));
        }
        let slug = states[i].0.as_str();
        if manifest.needs_regeneration(slug, &states[i].1) {
            if manifest.modules.contains_key(slug) {
                let ghost prev = stale_modules@;
                stale_modules.push(states[i].0.clone());
                assert(strings_view(stale_modules@) =~= strings_view(prev).push(slug@));
            } else {
                let ghost prev = new_modules@;
                new_modules.push(states[i].0.clone());
                assert(strings_view(new_modules@) =~= strings_view(prev).push(slug@));
            }
        }
        i += 1;
    }
    proof {
        assert(sv.take(states@.len() as int) =~= sv);
    }
    let mut removed_modules: Vec<String> = Vec::new();
    let n = manifest.modules.len();
    let ghost current = slugs_of(sv);
    let mut k: usize = 0;
    proof {
        assert(recorded.take(0) =~= Seq::<(Seq<char>, ModuleState)>::empty());
        assert(strings_view(removed_modules@) =~= Seq::<Seq<char>>::empty());
    }
    while k < n
        invariant
            k <= n,
            n == recorded.len(),
            sv == state_views(states@),
            current == slugs_of(sv),
            recorded == manifest.modules.pairs(),
            strings_view(removed_modules@) == gone_slugs(recorded.take(k as int), current),
        decreases n - k,
    {
        let key = manifest.modules.key_at(k);
        proof {
            let t = recorded.take(k + 1);
            assert(t.drop_last() =~= recorded.take(k as int));
            assert(t.last() == recorded[k as int]);
        }
        let mut found = false;
        let mut j: usize = 0;
        while j < states.len()
            invariant
                j <= states@.len(),
                sv == state_views(states@),
                current == slugs_of(sv),
                found == exists|a: int| 0 <= a < j && current[a] == key@,
            decreases states@.len() - j,
        {
            if str_eq(states[j].0.as_str(), key.as_str()) {
                found = true;
                assert(current[j as int] == key@);
            }
            j += 1;
        }
        proof {
            assert(found == current.contains(key@)) by {
                if current.contains(key@) {
                    let a = choose|a: int| 0 <= a < current.len() && current[a] == key@;
                    assert(0 <= a < j && current[a] == key@);
                }
            }
        }
        if !found {
            let ghost prev = removed_modules@;
            removed_modules.push(key.clone());
            assert(strings_view(removed_modules@) =~= strings_view(prev).push(key@));
        }
        k += 1;
    }
    proof {
        assert(recorded.take(n as int) =~= recorded);
    }
    let is_stale = stale_modules.len() > 0 || new_modules.len() > 0 || removed_modules.len() > 0;
    CheckResult { is_stale, stale_modules, new_modules, removed_modules }
}

/// The index of the first of the first `n` modules that holds the file; -1
/// if none does.
pub open spec fn module_of_file(modules: Seq<ModuleInfoView>, file: Seq<char>, from: int) -> int
    decreases modules.len() - from,
{
    if from < 0 || from >= modules.len() {
        -1
    } else if modules[from].files.contains(file) {
        from
    } else {
        module_of_file(modules, file, from + 1)
    }
}

/// For each of the first `n` hubs that is a file of a module, the slug of
/// the module and the number of importers.
pub open spec fn hub_modules(
    hubs: Seq<(Seq<char>, usize)>,
    modules: Seq<ModuleInfoView>,
    n: int,
) -> Seq<(Seq<char>, usize)>
    decreases n,
{
    if n <= 0 {
        Seq::empty()
    } else {
        let prev = hub_modules(hubs, modules, n - 1);
        let at = module_of_file(modules, hubs[n - 1].0, 0);
        if 0 <= at < modules.len() {
            prev.push((modules[at].slug, hubs[n - 1].1))
        } else {
            prev
        }
    }
}

/// For each hub that is a file of a module, the slug of that module and the
/// number of the hub's importers.
pub fn hub_module_slugs(
    hubs: &Vec<(String, usize)>,
    modules: &Vec<ModuleInfo>,
) -> (res: Vec<(String, usize)>)
    ensures
        counted_views(res@) == hub_modules(
            counted_views(hubs@),
            module_views(modules@),
            hubs@.len() as int,
        ),
{
    let ghost hv = counted_views(hubs@);
    let ghost mv = module_views(modules@);
    let mut out: Vec<(String, usize)> = Vec::new();
    let mut i: usize = 0;
    proof {
        assert(counted_views(out@) =~= Seq::<(Seq<char>, usize)>::empty());
    }
    while i < hubs.len()
        invariant
            i <= hubs@.len(),
            hv == counted_views(hubs@),
            mv == module_views(modules@),
            counted_views(out@) == hub_modules(hv, mv, i as int),
        decreases hubs@.len() - i,
    {
        let path = hubs[i].0.as_str();
        assert(hv[i as int] == (path@, hubs@[i as int].1));
        let mut at: usize = 0;
        while at < modules.len() && !modules[at].contains_file(path)
            invariant
                at <= modules@.len(),
                mv == module_views(modules@),
                module_of_file(mv, path@, 0) == module_of_file(mv, path@, at as int),
            decreases modules@.len() - at,
        {
            assert(mv[at as int] == modules@[at as int]@);
            at += 1;
        }
        if at < modules.len() {
            assert(mv[at as int] == modules@[at as int]@);
            let ghost prev = out@;
            out.push((modules[at].slug.clone(), hubs[i].1));
            assert(counted_views(out@) =~= counted_views(prev).push((mv[at as int].slug, hv[i as int].1)));
        }
        i += 1;
    }
    out
}

/// The index of the first file at or after `from` with the relative path
/// `path`; -1 if there is none.
pub open spec fn file_index(files: Seq<FileEntryView>, path: Seq<char>, from: int) -> int
    decreases files.len() - from,
{
    if from < 0 || from >= files.len() {
        -1
    } else if files[from].relative_path == path {
        from
    } else {
        file_index(files, path, from + 1)
    }
}

/// The symbols recorded for a file; none where nothing is recorded.
pub open spec fn symbols_for(a: AnalysisView, path: Seq<char>) -> Seq<SymbolView> {
    match lookup(a.symbols, path) {
        Some(s) => s,
        None => Seq::empty(),
    }
}

/// The documents of files with one more file considered: a scanned file
/// that is complex gets its document under its slug.
pub open spec fn with_file_doc(
    docs: Seq<(Seq<char>, Seq<char>)>,
    files: Seq<FileEntryView>,
    a: AnalysisView,
    module_slug: Seq<char>,
    path: Seq<char>,
    complex_threshold: usize,
) -> Seq<(Seq<char>, Seq<char>)> {
    let at = file_index(files, path, 0);
    if 0 <= at < files.len() {
        let symbols = symbols_for(a, path);
        if files[at].line_count >= complex_threshold || public_count(symbols, symbols.len() as int)
            >= DEFAULT_COMPLEX_SYMBOLS_THRESHOLD {
            put(
                docs,
                file_slug(files[at].relative_path),
                file_doc(files[at], symbols, a.memory, module_slug),
            )
        } else {
            docs
        }
    } else {
        docs
    }
}

/// The documents of files after the first `n` files of a module were
/// considered.
pub open spec fn with_file_docs(
    docs: Seq<(Seq<char>, Seq<char>)>,
    files: Seq<FileEntryView>,
    a: AnalysisView,
    module: ModuleInfoView,
    complex_threshold: usize,
    n: int,
) -> Seq<(Seq<char>, Seq<char>)>
    decreases n,
{
    if n <= 0 {
        docs
    } else {
        with_file_doc(
            with_file_docs(docs, files, a, module, complex_threshold, n - 1),
            files,
            a,
            module.slug,
            module.files[n - 1],
            complex_threshold,
        )
    }
}

/// The documents of a run.
pub struct OutputView {
    /// The documents of the modules, by slug.
    pub modules: Seq<(Seq<char>, ModuleContentView)>,
    /// The documents of the complex files, by the slug of the file.
    pub files: Seq<(Seq<char>, Seq<char>)>,
}

/// The documents after the first `n` modules were considered: a module to be
/// generated gets its documents, and its complex files theirs.
pub open spec fn assembled(
    modules: Seq<ModuleInfoView>,
    regenerate: Seq<Seq<char>>,
    files: Seq<FileEntryView>,
    a: AnalysisView,
    complex_threshold: usize,
    n: int,
) -> OutputView
    decreases n,
{
    if n <= 0 {
        OutputView { modules: Seq::empty(), files: Seq::empty() }
    } else {
        let prev = assembled(modules, regenerate, files, a, complex_threshold, n - 1);
        let m = modules[n - 1];
        if regenerate.contains(m.slug) {
            OutputView {
                modules: put(
                    prev.modules,
                    m.slug,
                    module_content(m, files, a.large_files, a.memory, a.graph),
                ),
                files: with_file_docs(
                    prev.files,
                    files,
                    a,
                    m,
                    complex_threshold,
                    m.files.len() as int,
                ),
            }
        } else {
            prev
        }
    }
}

/// The content of module documents, as a function.
pub open spec fn documents_content() -> spec_fn(ModuleContent) -> ModuleContentView {
    |c: ModuleContent| c@
}

/// The content of a string, as a function.
pub open spec fn string_content() -> spec_fn(String) -> Seq<char> {
    |s: String| s@
}

/// Whether `list` holds `s`.
pub fn holds_string(list: &Vec<String>, s: &str) -> (res: bool)
    ensures
        res == strings_view(list@).contains(s@),
{
    let ghost views = strings_view(list@);
    let mut i: usize = 0;
    while i < list.len()
        invariant
            i <= list@.len(),
            views == strings_view(list@),
            forall|k: int| 0 <= k < i ==> views[k] != s@,
        decreases list@.len() - i,
    {
        if str_eq(list[i].as_str(), s) {
            assert(views[i as int] == s@);
            return true;
        }
        i += 1;
    }
    false
}

/// The documents of a run: for each module that is to be generated anew its
/// documents, and for each of its files that is complex the document of the
/// file. The index is taken as it is given.
pub fn assemble_output(
    index_md: String,
    modules: &Vec<ModuleInfo>,
    regenerate: &Vec<String>,
    files: &[FileEntry],
    analysis: &Analysis,
    complex_threshold: usize,
) -> (res: HierarchicalOutput)
    ensures
        res.index_md == index_md,
        (OutputView {
            modules: map_pairs(res.modules.pairs(), documents_content()),
            files: map_pairs(res.files.pairs(), string_content()),
        }) == assembled(
            module_views(modules@),
            strings_view(regenerate@),
            file_views(files@),
            analysis@,
            complex_threshold,
            modules@.len() as int,
        ),
{
    let ghost mv = module_views(modules@);
    let ghost rv = strings_view(regenerate@);
    let ghost fv = file_views(files@);
    let ghost a = analysis@;
    let mut output = HierarchicalOutput::new(index_md);
    let mut i: usize = 0;
    proof {
        assert(map_pairs(output.modules.pairs(), documents_content()) =~= Seq::<
            (Seq<char>, ModuleContentView),
        >::empty());
        assert(map_pairs(output.files.pairs(), string_content()) =~= Seq::<
            (Seq<char>, Seq<char>),
        >::empty());
    }
    while i < modules.len()
        invariant
            i <= modules@.len(),
            mv == module_views(modules@),
            rv == strings_view(regenerate@),
            fv == file_views(files@),
            a == analysis@,
            output.index_md == index_md,
            (OutputView {
                modules: map_pairs(output.modules.pairs(), documents_content()),
                files: map_pairs(output.files.pairs(), string_content()),
            }) == assembled(mv, rv, fv, a, complex_threshold, i as int),
        decreases modules@.len() - i,
    {
        let module = &modules[i];
        assert(mv[i as int] == module@);
        if holds_string(regenerate, module.slug.as_str()) {
            proof {
                assert(fv =~= crate::generate::module_content::entry_file_views(files@));
            }
            let content = generate_module_content(
                module,
                files,
                analysis.large_files.as_slice(),
                analysis.memory.as_slice(),
                &analysis.graph,
            );
            let ghost old_modules = output.modules.pairs();
            output.add_module(module.slug.clone(), content);
            proof {
                lemma_map_pairs(old_modules, documents_content(), module.slug@);
            }
            let ghost start = map_pairs(output.files.pairs(), string_content());
            let mut k: usize = 0;
            while k < module.files.len()
                invariant
                    k <= module.files@.len(),
                    fv == file_views(files@),
                    a == analysis@,
                    output.index_md == index_md,
                    map_pairs(output.modules.pairs(), documents_content()) == put(
                        map_pairs(old_modules, documents_content()),
                        module.slug@,
                        content@,
                    ),
                    map_pairs(output.files.pairs(), string_content()) == with_file_docs(
                        start,
                        fv,
                        a,
                        module@,
                        complex_threshold,
                        k as int,
                    ),
                decreases module.files@.len() - k,
            {
                let path = module.files[k].as_str();
                assert(module@.files[k as int] == path@);
                let mut at: usize = 0;
                while at < files.len() && !str_eq(files[at].relative_path.as_str(), path)
                    invariant
                        at <= files@.len(),
                        fv == file_views(files@),
                        file_index(fv, path@, 0) == file_index(fv, path@, at as int),
                    decreases files@.len() - at,
                {
                    assert(fv[at as int] == files@[at as int]@);
                    at += 1;
                }
                if at < files.len() {
                    let file = &files[at];
                    assert(fv[at as int] == file@);
                    let none: Vec<Symbol> = Vec::new();
                    proof {
                        lemma_map_pairs(analysis.symbols.pairs(), symbols_content(), path@);
                        assert(symbol_views(none@) =~= Seq::<SymbolView>::empty());
                    }
                    let symbols = match analysis.symbols.get(path) {
                        Some(s) => s,
                        None => &none,
                    };
                    assert(symbol_views(symbols@) == symbols_for(a, path@));
                    if is_complex_file(
                        file,
                        symbols.as_slice(),
                        complex_threshold,
                        DEFAULT_COMPLEX_SYMBOLS_THRESHOLD,
                    ) {
                        let doc = generate_file_doc(
                            file,
                            symbols.as_slice(),
                            analysis.memory.as_slice(),
                            module.slug.as_str(),
                        );
                        let slug = file_path_to_slug(file.relative_path.as_str());
                        let ghost old_files = output.files.pairs();
                        output.add_file(slug, doc);
                        proof {
                            lemma_map_pairs(old_files, string_content(), slug@);
                        }
                    }
                }
                k += 1;
            }
        }
        i += 1;
    }
    output
}

} // verus!
