//! The documents of one module: its overview, and its own outline, memory
//! and imports.

use crate::analyze::graph::{FileGraph, FileGraphView};
use crate::analyze::imports::{add_unique, push_unique};
use crate::analyze::lang::strings_view;
use crate::analyze::memory::entry_views;
use crate::analyze::module::{ModuleInfo, ModuleInfoView};
use crate::analyze::order::{order_fn, sort_ordered, sort_with, Ordered, lemma_sort_with_map};
use crate::emit::writer::{ModuleContent, ModuleContentView};
use crate::generate::outline::{symbol_table, write_symbol_table};
use crate::runner::large_views;
use crate::strmap::lookup;
use crate::text::bytes::{
    contains_bytes, lex_le, range_contains, span_text, str_eq, str_le, text_between,
};
use crate::text::chars::{
    after_last_char, char_is_alphanumeric, from_chars, is_alphanumeric, last_char, to_chars,
};
use crate::text::decimal::{decimal, push_decimal};
use crate::text::lines::{lines_of, ranges_within, split_lines};
use crate::types::file::{FileEntry, FileEntryView};
use crate::types::memory::{MemoryEntry, MemoryEntryView, Priority};
use crate::types::symbol::{symbol_views, Symbol, SymbolView};
use crate::text::ascii::{BRACKET_OPEN, HASH};
use vstd::prelude::*;
use vstd::string::*;
use vstd::utf8::encode_utf8;

verus! {

/// Below how many bytes a section stands in the overview instead of a file
/// of its own.
pub const INLINE_THRESHOLD: usize = 500;

/// The links back from a document of a module.
pub const MODULE_NAVIGATION: &'static str =
    "[← Back to MODULE](MODULE.md) | [← Back to INDEX](../../INDEX.md)\n\n";

/// A section of a module's documentation, and whether it stands in the
/// overview.
pub struct SectionContent {
    pub content: String,
    pub should_inline: bool,
}

impl SectionContent {
    /// The section with this text: it stands in the overview where it is not
    /// empty and shorter than 500 bytes.
    pub fn new(content: String) -> (res: Self)
        ensures
            res.content == content,
            res.should_inline == (0 < encode_utf8(content@).len() < INLINE_THRESHOLD),
    {
        let n = content.as_str().as_bytes().len();
        let should_inline = 0 < n && n < INLINE_THRESHOLD;
        SectionContent { content, should_inline }
    }

    /// Whether the section gets a file of its own: it is not empty and does
    /// not stand in the overview.
    pub open spec fn is_separate(&self) -> bool {
        self.content@.len() > 0 && !self.should_inline
    }

    pub fn has_separate_file(&self) -> (res: bool)
        ensures
            res == self.is_separate(),
    {
        !self.content.as_str().is_empty() && !self.should_inline
    }
}

/// Whether a line belongs to the head of a document: it is empty or begins
/// with `#` or `[`.
pub open spec fn is_header_line(bytes: Seq<u8>, line: (usize, usize)) -> bool {
    line.0 >= line.1 || bytes[line.0 as int] == HASH || bytes[line.0 as int] == BRACKET_OPEN
}

/// The index of the first line at or after `from` that is no header line.
pub open spec fn first_body_line(bytes: Seq<u8>, lines: Seq<(usize, usize)>, from: int) -> int
    decreases lines.len() - from,
{
    if from < 0 || from >= lines.len() {
        lines.len() as int
    } else if is_header_line(bytes, lines[from]) {
        first_body_line(bytes, lines, from + 1)
    } else {
        from
    }
}

/// `acc` with the lines from `first` up to `n`, a line feed between each
/// two.
pub open spec fn joined_lines(
    acc: Seq<char>,
    bytes: Seq<u8>,
    lines: Seq<(usize, usize)>,
    first: int,
    n: int,
) -> Seq<char>
    decreases n - first,
{
    if n <= first {
        acc
    } else {
        let prev = joined_lines(acc, bytes, lines, first, n - 1);
        let sep = if n - 1 > first {
            prev + "\n"@
        } else {
            prev
        };
        sep + span_text(bytes, lines[n - 1].0 as int, lines[n - 1].1 as int)
    }
}

/// `acc` with a document without its head: the lines from the first one on
/// that is not empty and begins with neither `#` nor `[`.
pub open spec fn body_of(acc: Seq<char>, content: Seq<char>) -> Seq<char> {
    let bytes = encode_utf8(content);
    let lines = lines_of(bytes);
    joined_lines(acc, bytes, lines, first_body_line(bytes, lines, 0), lines.len() as int)
}

/// Puts `content` without its head at the end of `out`.
pub fn write_body(out: &mut String, content: &str)
    ensures
        final(out)@ == body_of(old(out)@, content@),
{
    let bytes = content.as_bytes();
    let lines = split_lines(bytes);
    let n = lines.len();
    let mut first: usize = 0;
    while first < n && (lines[first].0 >= lines[first].1 || bytes[lines[first].0] == HASH
        || bytes[lines[first].0] == BRACKET_OPEN)
        invariant
            first <= n,
            n == lines@.len(),
            ranges_within(lines@, bytes@.len() as int),
            first_body_line(bytes@, lines@, 0) == first_body_line(bytes@, lines@, first as int),
        decreases n - first,
    {
        first += 1;
    }
    let ghost start = out@;
    let mut k: usize = first;
    while k < n
        invariant
            first <= k <= n,
            n == lines@.len(),
            bytes@ == content.spec_bytes(),
            out@ == joined_lines(start, bytes@, lines@, first as int, k as int),
        decreases n - k,
    {
        if k > first {
            out.append("\n");
        }
        let t = text_between(content, lines[k].0, lines[k].1);
        out.append(t.as_str());
        k += 1;
    }
}

/// A document without its head.
pub fn strip_navigation_header(content: &str) -> (res: String)
    ensures
        res@ == body_of(Seq::empty(), content@),
{
    let mut out = String::new();
    write_body(&mut out, content);
    out
}

/// How many of the first `n` large files belong to the module.
pub open spec fn large_in_module(
    files: Seq<Seq<char>>,
    items: Seq<(FileEntryView, Seq<SymbolView>)>,
    n: int,
) -> nat
    decreases n,
{
    if n <= 0 {
        0
    } else {
        large_in_module(files, items, n - 1) + (if files.contains(items[n - 1].0.relative_path) {
            1nat
        } else {
            0nat
        })
    }
}

/// `acc` with the section of a large file of the module.
pub open spec fn module_file_section(
    acc: Seq<char>,
    file: FileEntryView,
    symbols: Seq<SymbolView>,
) -> Seq<char> {
    let head = acc + "## "@ + file.relative_path + " ("@ + decimal(file.line_count as nat)
        + " lines)\n\n"@;
    if symbols.len() == 0 {
        head + "_No symbols extracted._\n\n"@
    } else {
        symbol_table(head, symbols) + "\n"@
    }
}

/// `acc` with the sections of those of the first `n` large files that
/// belong to the module.
pub open spec fn module_file_sections(
    acc: Seq<char>,
    files: Seq<Seq<char>>,
    items: Seq<(FileEntryView, Seq<SymbolView>)>,
    n: int,
) -> Seq<char>
    decreases n,
{
    if n <= 0 {
        acc
    } else {
        let prev = module_file_sections(acc, files, items, n - 1);
        if files.contains(items[n - 1].0.relative_path) {
            module_file_section(prev, items[n - 1].0, items[n - 1].1)
        } else {
            prev
        }
    }
}

/// The outline of a module: the symbol tables of its large files; empty
/// where it has none.
pub open spec fn module_outline(
    module: ModuleInfoView,
    items: Seq<(FileEntryView, Seq<SymbolView>)>,
) -> Seq<char> {
    let n = items.len() as int;
    if large_in_module(module.files, items, n) == 0 {
        Seq::empty()
    } else {
        module_file_sections(
            "# Outline\n\n"@ + MODULE_NAVIGATION@ + "Symbol maps for "@ + decimal(
                large_in_module(module.files, items, n),
            ) + " large files in this module.\n\n"@,
            module.files,
            items,
            n,
        )
    }
}

/// The outline of a module.
pub fn generate_module_outline(
    module: &ModuleInfo,
    symbols: &[(FileEntry, Vec<Symbol>)],
) -> (res: String)
    ensures
        res@ == module_outline(module@, large_views(symbols@)),
{
    let ghost items = large_views(symbols@);
    let mut count: usize = 0;
    let mut i: usize = 0;
    while i < symbols.len()
        invariant
            i <= symbols@.len(),
            items == large_views(symbols@),
            count == large_in_module(module@.files, items, i as int),
            count <= i,
        decreases symbols@.len() - i,
    {
        assert(items[i as int] == (symbols@[i as int].0@, symbol_views(symbols@[i as int].1@)));
        if module.contains_file(symbols[i].0.relative_path.as_str()) {
            count += 1;
        }
        i += 1;
    }
    if count == 0 {
        return String::new();
    }
    let mut out = "# Outline\n\n".to_owned();
    out.append(MODULE_NAVIGATION);
    out.append("Symbol maps for ");
    push_decimal(&mut out, count);
    out.append(" large files in this module.\n\n");
    let ghost start = out@;
    let mut k: usize = 0;
    while k < symbols.len()
        invariant
            k <= symbols@.len(),
            items == large_views(symbols@),
            out@ == module_file_sections(start, module@.files, items, k as int),
        decreases symbols@.len() - k,
    {
        let file = &symbols[k].0;
        assert(items[k as int] == (file@, symbol_views(symbols@[k as int].1@)));
        if module.contains_file(file.relative_path.as_str()) {
            out.append("## ");
            out.append(file.relative_path.as_str());
            out.append(" (");
            push_decimal(&mut out, file.line_count);
            out.append(" lines)\n\n");
            if symbols[k].1.len() == 0 {
                out.append("_No symbols extracted._\n\n");
            } else {
                write_symbol_table(&mut out, symbols[k].1.as_slice());
                out.append("\n");
            }
        }
        k += 1;
    }
    out
}

/// Whether a marker is listed: it stands in a file of the module, and has
/// the priority where one is asked for.
pub open spec fn is_listed(
    files: Seq<Seq<char>>,
    e: MemoryEntryView,
    priority: Option<Priority>,
) -> bool {
    files.contains(e.source_file) && match priority {
        Some(p) => e.priority == p,
        None => true,
    }
}

/// How many of the first `n` markers are listed.
pub open spec fn listed_count(
    files: Seq<Seq<char>>,
    memory: Seq<MemoryEntryView>,
    priority: Option<Priority>,
    n: int,
) -> nat
    decreases n,
{
    if n <= 0 {
        0
    } else {
        listed_count(files, memory, priority, n - 1) + (if is_listed(
            files,
            memory[n - 1],
            priority,
        ) {
            1nat
        } else {
            0nat
        })
    }
}

/// `acc` with a marker of the module.
pub open spec fn module_marker(acc: Seq<char>, e: MemoryEntryView) -> Seq<char> {
    acc + "### `"@ + e.kind.label() + "` ("@ + e.source_file + ":"@ + decimal(
        e.line_number as nat,
    ) + ")\n\n> "@ + e.content + "\n\n"@
}

/// `acc` with those of the first `n` markers that are listed.
pub open spec fn module_markers(
    acc: Seq<char>,
    files: Seq<Seq<char>>,
    memory: Seq<MemoryEntryView>,
    priority: Priority,
    n: int,
) -> Seq<char>
    decreases n,
{
    if n <= 0 {
        acc
    } else {
        let prev = module_markers(acc, files, memory, priority, n - 1);
        if is_listed(files, memory[n - 1], Some(priority)) {
            module_marker(prev, memory[n - 1])
        } else {
            prev
        }
    }
}

/// The heading of the markers of a priority.
pub open spec fn priority_heading(p: Priority) -> Seq<char> {
    match p {
        Priority::High => "## 🔴 High Priority\n\n"@,
        Priority::Medium => "## 🟡 Medium Priority\n\n"@,
        Priority::Low => "## 🟢 Low Priority\n\n"@,
    }
}

/// `acc` with the markers of a priority under their heading, if there are
/// any.
pub open spec fn priority_section(
    acc: Seq<char>,
    files: Seq<Seq<char>>,
    memory: Seq<MemoryEntryView>,
    p: Priority,
) -> Seq<char> {
    let n = memory.len() as int;
    if listed_count(files, memory, Some(p), n) == 0 {
        acc
    } else {
        module_markers(acc + priority_heading(p), files, memory, p, n)
    }
}

/// The memory document of a module: how many markers of each priority its
/// files hold, and the markers by priority; empty where it has none.
pub open spec fn module_memory(module: ModuleInfoView, memory: Seq<MemoryEntryView>) -> Seq<char> {
    let n = memory.len() as int;
    let files = module.files;
    if listed_count(files, memory, None, n) == 0 {
        Seq::empty()
    } else {
        let head = "# Memory\n\n"@ + MODULE_NAVIGATION@ + "## Summary\n\n"@
            + "| High 🔴 | Medium 🟡 | Low 🟢 |\n| "@ + decimal(
            listed_count(files, memory, Some(Priority::High), n),
        ) + " | "@ + decimal(listed_count(files, memory, Some(Priority::Medium), n)) + " | "@
            + decimal(listed_count(files, memory, Some(Priority::Low), n)) + " |\n\n"@;
        priority_section(
            priority_section(
                priority_section(head, files, memory, Priority::High),
                files,
                memory,
                Priority::Medium,
            ),
            files,
            memory,
            Priority::Low,
        )
    }
}

fn count_listed(
    module: &ModuleInfo,
    memory: &[MemoryEntry],
    priority: Option<Priority>,
) -> (res: usize)
    ensures
        res == listed_count(module@.files, entry_views(memory@), priority, memory@.len() as int),
{
    let ghost views = entry_views(memory@);
    let mut count: usize = 0;
    let mut i: usize = 0;
    while i < memory.len()
        invariant
            i <= memory@.len(),
            views == entry_views(memory@),
            count == listed_count(module@.files, views, priority, i as int),
            count <= i,
        decreases memory@.len() - i,
    {
        let e = &memory[i];
        assert(views[i as int] == e@);
        let of_priority = match priority {
            Some(p) => e.priority == p,
            None => true,
        };
        if of_priority && module.contains_file(e.source_file.as_str()) {
            count += 1;
        }
        i += 1;
    }
    count
}

fn write_priority_section(
    out: &mut String,
    module: &ModuleInfo,
    memory: &[MemoryEntry],
    p: Priority,
)
    ensures
        final(out)@ == priority_section(old(out)@, module@.files, entry_views(memory@), p),
{
    if count_listed(module, memory, Some(p)) == 0 {
        return ;
    }
    let ghost views = entry_views(memory@);
    match p {
        Priority::High => out.append("## 🔴 High Priority\n\n"),
        Priority::Medium => out.append("## 🟡 Medium Priority\n\n"),
        Priority::Low => out.append("## 🟢 Low Priority\n\n"),
    }
    let ghost start = out@;
    let mut i: usize = 0;
    while i < memory.len()
        invariant
            i <= memory@.len(),
            views == entry_views(memory@),
            out@ == module_markers(start, module@.files, views, p, i as int),
        decreases memory@.len() - i,
    {
        let e = &memory[i];
        assert(views[i as int] == e@);
        if e.priority == p && module.contains_file(e.source_file.as_str()) {
            out.append("### `");
            out.append(e.kind.as_str());
            out.append("` (");
            out.append(e.source_file.as_str());
            out.append(":");
            push_decimal(out, e.line_number);
            out.append(")\n\n> ");
            out.append(e.content.as_str());
            out.append("\n\n");
        }
        i += 1;
    }
}

/// The memory document of a module.
pub fn generate_module_memory(module: &ModuleInfo, memory: &[MemoryEntry]) -> (res: String)
    ensures
        res@ == module_memory(module@, entry_views(memory@)),
{
    if count_listed(module, memory, None) == 0 {
        return String::new();
    }
    let mut out = "# Memory\n\n".to_owned();
    out.append(MODULE_NAVIGATION);
    out.append("## Summary\n\n");
    out.append("| High 🔴 | Medium 🟡 | Low 🟢 |\n| ");
    push_decimal(&mut out, count_listed(module, memory, Some(Priority::High)));
    out.append(" | ");
    push_decimal(&mut out, count_listed(module, memory, Some(Priority::Medium)));
    out.append(" | ");
    push_decimal(&mut out, count_listed(module, memory, Some(Priority::Low)));
    out.append(" |\n\n");
    write_priority_section(&mut out, module, memory, Priority::High);
    write_priority_section(&mut out, module, memory, Priority::Medium);
    write_priority_section(&mut out, module, memory, Priority::Low);
    out
}

/// A text as the identifier of a node of a diagram: each character that is
/// neither letter nor digit made an underscore.
pub open spec fn mermaid_id(s: Seq<char>) -> Seq<char> {
    Seq::new(
        s.len(),
        |i: int|
            if char_is_alphanumeric(s[i]) {
                s[i]
            } else {
                '_'
            },
    )
}

/// The identifier of the node of a diagram for `s`.
pub fn sanitize_mermaid_id(s: &str) -> (res: String)
    ensures
        res@ == mermaid_id(s@),
{
    let v = to_chars(s);
    let mut out: Vec<char> = Vec::new();
    let mut i: usize = 0;
    while i < v.len()
        invariant
            i <= v@.len(),
            out@ == mermaid_id(v@).subrange(0, i as int),
        decreases v@.len() - i,
    {
        let c = v[i];
        out.push(if is_alphanumeric(c) { c } else { '_' });
        assert(out@ =~= mermaid_id(v@).subrange(0, i + 1));
        i += 1;
    }
    proof {
        assert(mermaid_id(v@).subrange(0, v@.len() as int) =~= mermaid_id(v@));
        assert(out@.subrange(0, out@.len() as int) =~= out@);
    }
    from_chars(&out, 0, out.len())
}

/// The name of the module of a path: the directory in which the file lies,
/// without the directories above it; the path itself where it names no
/// directory.
pub open spec fn module_name_of(path: Seq<char>) -> Seq<char> {
    let last = last_char(path, '/', path.len() as int);
    if last < 0 {
        path
    } else {
        path.subrange(last_char(path, '/', last) + 1, last)
    }
}

/// The name of the module of the file `path`.
pub fn path_to_module_name(path: &str) -> (res: String)
    ensures
        res@ == module_name_of(path@),
{
    let v = to_chars(path);
    let after = after_last_char(&v, '/', v.len());
    if after == 0 {
        proof {
            assert(v@.subrange(0, v@.len() as int) =~= v@);
        }
        return from_chars(&v, 0, v.len());
    }
    let last = after - 1;
    let start = after_last_char(&v, '/', last);
    from_chars(&v, start, last)
}

/// Whether some file of the module holds the identifier in its path.
pub open spec fn is_internal(files: Seq<Seq<char>>, id: Seq<char>) -> bool {
    exists|i: int|
        0 <= i < files.len() && contains_bytes(encode_utf8(#[trigger] files[i]), encode_utf8(id))
}

/// The dependencies of a module: those within it and those from elsewhere.
pub struct Dependencies {
    pub internal: Seq<Seq<char>>,
    pub external: Seq<Seq<char>>,
}

/// `deps` with the first `n` of the identifiers that a file imports.
pub open spec fn with_imports(
    deps: Dependencies,
    files: Seq<Seq<char>>,
    ids: Seq<Seq<char>>,
    n: int,
) -> Dependencies
    decreases n,
{
    if n <= 0 {
        deps
    } else {
        let prev = with_imports(deps, files, ids, n - 1);
        if is_internal(files, ids[n - 1]) {
            Dependencies { internal: add_unique(prev.internal, ids[n - 1]), external: prev.external }
        } else {
            Dependencies { internal: prev.internal, external: add_unique(prev.external, ids[n - 1]) }
        }
    }
}

/// The dependencies of the first `n` files of a module, each identifier
/// once.
pub open spec fn dependencies(graph: FileGraphView, files: Seq<Seq<char>>, n: int) -> Dependencies
    decreases n,
{
    if n <= 0 {
        Dependencies { internal: Seq::empty(), external: Seq::empty() }
    } else {
        let prev = dependencies(graph, files, n - 1);
        match lookup(graph.imports, files[n - 1]) {
            Some(ids) => with_imports(prev, files, ids, ids.len() as int),
            None => prev,
        }
    }
}

/// `acc` with those of the first `n` importers that are no files of the
/// module.
pub open spec fn with_importers(
    acc: Seq<Seq<char>>,
    files: Seq<Seq<char>>,
    importers: Seq<Seq<char>>,
    n: int,
) -> Seq<Seq<char>>
    decreases n,
{
    if n <= 0 {
        acc
    } else {
        let prev = with_importers(acc, files, importers, n - 1);
        if files.contains(importers[n - 1]) {
            prev
        } else {
            add_unique(prev, importers[n - 1])
        }
    }
}

/// The files outside a module that import one of its first `n` files, each
/// once.
pub open spec fn consumers(graph: FileGraphView, files: Seq<Seq<char>>, n: int) -> Seq<Seq<char>>
    decreases n,
{
    if n <= 0 {
        Seq::empty()
    } else {
        let prev = consumers(graph, files, n - 1);
        match lookup(graph.importers, files[n - 1]) {
            Some(list) => with_importers(prev, files, list, list.len() as int),
            None => prev,
        }
    }
}

/// The order of the dictionary on texts.
pub open spec fn text_order() -> spec_fn(Seq<char>, Seq<char>) -> bool {
    |a: Seq<char>, b: Seq<char>| lex_le(encode_utf8(a), encode_utf8(b), 0)
}

impl Ordered for String {
    open spec fn may_precede(&self, other: &Self) -> bool {
        text_order()(self@, other@)
    }

    fn precedes(&self, other: &Self) -> (r: bool) {
        str_le(self.as_str(), other.as_str())
    }
}

/// The content of a string, as a function.
pub open spec fn text_of() -> spec_fn(String) -> Seq<char> {
    |s: String| s@
}

/// The strings in the order of the dictionary.
pub fn sort_strings(v: Vec<String>) -> (res: Vec<String>)
    ensures
        strings_view(res@) == sort_with(strings_view(v@), text_order()),
{
    let ghost input = v@;
    let sorted = sort_ordered(v);
    proof {
        assert forall|a: String, b: String| #[trigger]
            order_fn::<String>()(a, b) == text_order()(text_of()(a), text_of()(b)) by {}
        lemma_sort_with_map(input, text_of(), order_fn::<String>(), text_order());
        assert(strings_view(input) =~= input.map_values(text_of()));
        assert(strings_view(sorted@) =~= sorted@.map_values(text_of()));
    }
    sorted
}

/// `acc` with one item of a list for each of the first `n` texts.
pub open spec fn bullet_list(acc: Seq<char>, items: Seq<Seq<char>>, n: int) -> Seq<char>
    decreases n,
{
    if n <= 0 {
        acc
    } else {
        bullet_list(acc, items, n - 1) + "- `"@ + items[n - 1] + "`\n"@
    }
}

/// `acc` with a list under a heading, if the list is not empty.
pub open spec fn listed(acc: Seq<char>, heading: Seq<char>, items: Seq<Seq<char>>) -> Seq<char> {
    if items.len() == 0 {
        acc
    } else {
        bullet_list(acc + heading, items, items.len() as int) + "\n"@
    }
}

/// `acc` with an edge of the diagram from the module to what it depends on.
pub open spec fn edge_out(acc: Seq<char>, slug: Seq<char>, dep: Seq<char>) -> Seq<char> {
    acc + "    "@ + mermaid_id(slug) + "["@ + slug + "] --> "@ + mermaid_id(module_name_of(dep))
        + "["@ + module_name_of(dep) + "]\n"@
}

/// `acc` with an edge of the diagram from a consumer to the module.
pub open spec fn edge_in(acc: Seq<char>, slug: Seq<char>, consumer: Seq<char>) -> Seq<char> {
    acc + "    "@ + mermaid_id(module_name_of(consumer)) + "["@ + module_name_of(consumer)
        + "] --> "@ + mermaid_id(slug) + "["@ + slug + "]\n"@
}

/// `acc` with the edges to the first `n` dependencies.
pub open spec fn edges_out(
    acc: Seq<char>,
    slug: Seq<char>,
    deps: Seq<Seq<char>>,
    n: int,
) -> Seq<char>
    decreases n,
{
    if n <= 0 {
        acc
    } else {
        edge_out(edges_out(acc, slug, deps, n - 1), slug, deps[n - 1])
    }
}

/// `acc` with the edges from the first `n` consumers.
pub open spec fn edges_in(
    acc: Seq<char>,
    slug: Seq<char>,
    list: Seq<Seq<char>>,
    n: int,
) -> Seq<char>
    decreases n,
{
    if n <= 0 {
        acc
    } else {
        edge_in(edges_in(acc, slug, list, n - 1), slug, list[n - 1])
    }
}

/// `acc` with the diagram of the dependencies, if there is an edge.
pub open spec fn diagram(
    acc: Seq<char>,
    slug: Seq<char>,
    external: Seq<Seq<char>>,
    users: Seq<Seq<char>>,
) -> Seq<char> {
    if external.len() == 0 && users.len() == 0 {
        acc
    } else {
        edges_in(
            edges_out(
                acc + "## Dependency Graph\n\n"@ + "```mermaid\ngraph TD\n"@,
                slug,
                external,
                external.len() as int,
            ),
            slug,
            users,
            users.len() as int,
        ) + "```\n\n"@
    }
}

/// The imports document of a module from its sorted lists.
pub open spec fn imports_doc(
    slug: Seq<char>,
    internal: Seq<Seq<char>>,
    external: Seq<Seq<char>>,
    users: Seq<Seq<char>>,
) -> Seq<char> {
    let head = "# Imports\n\n"@ + MODULE_NAVIGATION@;
    if internal.len() == 0 && external.len() == 0 && users.len() == 0 {
        head + "_No import relationships detected._\n"@
    } else {
        listed(
            listed(
                listed(
                    diagram(head, slug, external, users),
                    "## Internal Dependencies\n\n"@ + "Dependencies within this module:\n\n"@,
                    internal,
                ),
                "## External Dependencies\n\n"@ + "Dependencies from other modules:\n\n"@,
                external,
            ),
            "## Consumers\n\n"@ + "Files from other modules that import from this module:\n\n"@,
            users,
        )
    }
}

/// The imports document of a module: a diagram of what it depends on and of
/// what depends on it, and the lists of both, each in the order of the
/// dictionary.
pub open spec fn module_imports(module: ModuleInfoView, graph: FileGraphView) -> Seq<char> {
    let n = module.files.len() as int;
    let deps = dependencies(graph, module.files, n);
    imports_doc(
        module.slug,
        sort_with(deps.internal, text_order()),
        sort_with(deps.external, text_order()),
        sort_with(consumers(graph, module.files, n), text_order()),
    )
}

fn write_list(out: &mut String, heading: &str, note: &str, items: &Vec<String>)
    ensures
        final(out)@ == listed(old(out)@, heading@ + note@, strings_view(items@)),
{
    if items.len() == 0 {
        return ;
    }
    let ghost texts = strings_view(items@);
    let ghost before = out@;
    out.append(heading);
    out.append(note);
    proof {
        assert(out@ =~= before + (heading@ + note@));
    }
    let ghost start = out@;
    let mut i: usize = 0;
    while i < items.len()
        invariant
            i <= items@.len(),
            texts == strings_view(items@),
            out@ == bullet_list(start, texts, i as int),
        decreases items@.len() - i,
    {
        assert(texts[i as int] == items@[i as int]@);
        out.append("- `");
        out.append(items[i].as_str());
        out.append("`\n");
        i += 1;
    }
    out.append("\n");
}

/// Whether some file of the module holds `id` in its path.
pub fn holds_in_path(module: &ModuleInfo, id: &str) -> (res: bool)
    ensures
        res == is_internal(module@.files, id@),
{
    let ghost files = module@.files;
    let needle = id.as_bytes();
    let mut i: usize = 0;
    while i < module.files.len()
        invariant
            i <= module.files@.len(),
            files == strings_view(module.files@),
            needle@ == encode_utf8(id@),
            forall|k: int|
                0 <= k < i ==> !contains_bytes(encode_utf8(#[trigger] files[k]), encode_utf8(id@)),
        decreases module.files@.len() - i,
    {
        let b = module.files[i].as_str().as_bytes();
        assert(b@.subrange(0, b@.len() as int) =~= b@);
        assert(files[i as int] == module.files@[i as int]@);
        if range_contains(b, 0, b.len(), needle) {
            return true;
        }
        i += 1;
    }
    false
}

/// The imports document of a module.
pub fn generate_module_imports(module: &ModuleInfo, graph: &FileGraph) -> (res: String)
    ensures
        res@ == module_imports(module@, graph@),
{
    let ghost files = module@.files;
    let mut internal: Vec<String> = Vec::new();
    let mut external: Vec<String> = Vec::new();
    let mut users: Vec<String> = Vec::new();
    let mut i: usize = 0;
    proof {
        assert(strings_view(internal@) =~= Seq::<Seq<char>>::empty());
        assert(strings_view(external@) =~= Seq::<Seq<char>>::empty());
        assert(strings_view(users@) =~= Seq::<Seq<char>>::empty());
    }
    while i < module.files.len()
        invariant
            i <= module.files@.len(),
            files == strings_view(module.files@),
            files == module@.files,
            (Dependencies {
                internal: strings_view(internal@),
                external: strings_view(external@),
            }) == dependencies(graph@, files, i as int),
            strings_view(users@) == consumers(graph@, files, i as int),
        decreases module.files@.len() - i,
    {
        let file = module.files[i].as_str();
        assert(files[i as int] == file@);
        match graph.imports_of(file) {
            Some(ids) => {
                let ghost idv = strings_view(ids@);
                let ghost before = dependencies(graph@, files, i as int);
                let mut k: usize = 0;
                while k < ids.len()
                    invariant
                        k <= ids@.len(),
                        idv == strings_view(ids@),
                        files == module@.files,
                        (Dependencies {
                            internal: strings_view(internal@),
                            external: strings_view(external@),
                        }) == with_imports(before, files, idv, k as int),
                    decreases ids@.len() - k,
                {
                    assert(idv[k as int] == ids@[k as int]@);
                    if holds_in_path(module, ids[k].as_str()) {
                        push_unique(&mut internal, ids[k].clone());
                    } else {
                        push_unique(&mut external, ids[k].clone());
                    }
                    k += 1;
                }
            },
            None => {},
        }
        match graph.importers_of(file) {
            Some(list) => {
                let ghost lv = strings_view(list@);
                let ghost before = consumers(graph@, files, i as int);
                let mut k: usize = 0;
                while k < list.len()
                    invariant
                        k <= list@.len(),
                        lv == strings_view(list@),
                        files == module@.files,
                        strings_view(users@) == with_importers(before, files, lv, k as int),
                    decreases list@.len() - k,
                {
                    assert(lv[k as int] == list@[k as int]@);
                    if !module.contains_file(list[k].as_str()) {
                        push_unique(&mut users, list[k].clone());
                    }
                    k += 1;
                }
            },
            None => {},
        }
        i += 1;
    }
    let internal = sort_strings(internal);
    let external = sort_strings(external);
    let users = sort_strings(users);
    let ghost iv = strings_view(internal@);
    let ghost ev = strings_view(external@);
    let ghost uv = strings_view(users@);
    let mut out = "# Imports\n\n".to_owned();
    out.append(MODULE_NAVIGATION);
    if internal.len() == 0 && external.len() == 0 && users.len() == 0 {
        out.append("_No import relationships detected._\n");
        return out;
    }
    let slug = module.slug.as_str();
    if external.len() > 0 || users.len() > 0 {
        out.append("## Dependency Graph\n\n");
        out.append("```mermaid\ngraph TD\n");
        let module_id = sanitize_mermaid_id(slug);
        let ghost start = out@;
        let mut k: usize = 0;
        while k < external.len()
            invariant
                k <= external@.len(),
                ev == strings_view(external@),
                module_id@ == mermaid_id(slug@),
                out@ == edges_out(start, slug@, ev, k as int),
            decreases external@.len() - k,
        {
            assert(ev[k as int] == external@[k as int]@);
            let name = path_to_module_name(external[k].as_str());
            let id = sanitize_mermaid_id(name.as_str());
            out.append("    ");
            out.append(module_id.as_str());
            out.append("[");
            out.append(slug);
            out.append("] --> ");
            out.append(id.as_str());
            out.append("[");
            out.append(name.as_str());
            out.append("]\n");
            k += 1;
        }
        let ghost mid = out@;
        let mut k: usize = 0;
        while k < users.len()
            invariant
                k <= users@.len(),
                uv == strings_view(users@),
                module_id@ == mermaid_id(slug@),
                out@ == edges_in(mid, slug@, uv, k as int),
            decreases users@.len() - k,
        {
            assert(uv[k as int] == users@[k as int]@);
            let name = path_to_module_name(users[k].as_str());
            let id = sanitize_mermaid_id(name.as_str());
            out.append("    ");
            out.append(id.as_str());
            out.append("[");
            out.append(name.as_str());
            out.append("] --> ");
            out.append(module_id.as_str());
            out.append("[");
            out.append(slug);
            out.append("]\n");
            k += 1;
        }
        out.append("```\n\n");
    }
    write_list(
        &mut out,
        "## Internal Dependencies\n\n",
        "Dependencies within this module:\n\n",
        &internal,
    );
    write_list(
        &mut out,
        "## External Dependencies\n\n",
        "Dependencies from other modules:\n\n",
        &external,
    );
    write_list(
        &mut out,
        "## Consumers\n\n",
        "Files from other modules that import from this module:\n\n",
        &users,
    );
    out
}

/// The content of a [`SectionContent`].
pub struct SectionView {
    pub content: Seq<char>,
    pub should_inline: bool,
}

impl View for SectionContent {
    type V = SectionView;

    open spec fn view(&self) -> SectionView {
        SectionView { content: self.content@, should_inline: self.should_inline }
    }
}

impl SectionView {
    /// Whether the section gets a file of its own.
    pub open spec fn separate(self) -> bool {
        self.content.len() > 0 && !self.should_inline
    }
}

/// The contents of the files.
pub open spec fn file_ref_views(s: Seq<&FileEntry>) -> Seq<FileEntryView> {
    s.map_values(|f: &FileEntry| f@)
}

/// The head of the overview of a module: its title, its kind and the number
/// of its files, and its entry point where it has one.
pub open spec fn overview_head(module: ModuleInfoView) -> Seq<char> {
    let title = if module.path.len() == 0 || module.slug == "root"@ {
        "# "@ + "Root Module"@
    } else {
        "# "@ + "Module: "@ + module.path
    };
    let head = title + "\n\n"@ + "[← Back to INDEX](../../INDEX.md)\n\n"@ + "**Type:** "@
        + module.boundary_type.label() + " | **Files:** "@ + decimal(module.files.len()) + "\n\n"@;
    match module.entry_point {
        Some(e) => head + "**Entry point:** `"@ + e + "`\n\n"@,
        None => head,
    }
}

/// `acc` with the rows of the first `n` files.
pub open spec fn file_rows(acc: Seq<char>, files: Seq<FileEntryView>, n: int) -> Seq<char>
    decreases n,
{
    if n <= 0 {
        acc
    } else {
        let f = files[n - 1];
        let row = file_rows(acc, files, n - 1) + "| `"@ + f.relative_path + "` | "@ + decimal(
            f.line_count as nat,
        ) + " | "@;
        if f.is_large {
            row + "📊"@ + " |\n"@
        } else {
            row + " |\n"@
        }
    }
}

/// `acc` with the table of the files, if there are any.
pub open spec fn file_table(acc: Seq<char>, files: Seq<FileEntryView>) -> Seq<char> {
    if files.len() == 0 {
        acc
    } else {
        file_rows(
            acc + "## Files\n\n"@ + "| File | Lines | Large |\n"@ + "| ---- | ----- | ----- |\n"@,
            files,
            files.len() as int,
        ) + "\n"@
    }
}

/// `acc` with links to the first `n` modules below.
pub open spec fn child_links(acc: Seq<char>, children: Seq<Seq<char>>, n: int) -> Seq<char>
    decreases n,
{
    if n <= 0 {
        acc
    } else {
        child_links(acc, children, n - 1) + "- ["@ + children[n - 1] + "](../"@ + children[n - 1]
            + "/MODULE.md)\n"@
    }
}

/// `acc` with the list of the modules below, if there are any.
pub open spec fn child_list(acc: Seq<char>, children: Seq<Seq<char>>) -> Seq<char> {
    if children.len() == 0 {
        acc
    } else {
        child_links(acc + "## Child Modules\n\n"@, children, children.len() as int) + "\n"@
    }
}

/// `acc` with links to the sections that have files of their own.
pub open spec fn document_links(
    acc: Seq<char>,
    outline: SectionView,
    memory: SectionView,
    imports: SectionView,
) -> Seq<char> {
    if !outline.separate() && !memory.separate() && !imports.separate() {
        acc
    } else {
        let a = acc + "## Documentation\n\n"@;
        let b = if outline.separate() {
            a + "- [outline.md](outline.md) - Symbol maps for large files\n"@
        } else {
            a
        };
        let c = if memory.separate() {
            b + "- [memory.md](memory.md) - Warnings and TODOs\n"@
        } else {
            b
        };
        let d = if imports.separate() {
            c + "- [imports.md](imports.md) - Dependencies\n"@
        } else {
            c
        };
        d + "\n"@
    }
}

/// `acc` with a section that stands in the overview: a rule, and the section
/// without its head.
pub open spec fn inlined(acc: Seq<char>, section: SectionView) -> Seq<char> {
    if section.should_inline {
        body_of(acc + "---\n\n"@, section.content)
    } else {
        acc
    }
}

/// The overview of a module.
pub open spec fn module_md(
    module: ModuleInfoView,
    files: Seq<FileEntryView>,
    outline: SectionView,
    memory: SectionView,
    imports: SectionView,
) -> Seq<char> {
    inlined(
        inlined(
            inlined(
                document_links(
                    child_list(file_table(overview_head(module), files), module.children),
                    outline,
                    memory,
                    imports,
                ),
                outline,
            ),
            memory,
        ),
        imports,
    )
}

fn write_inlined(out: &mut String, section: &SectionContent)
    ensures
        final(out)@ == inlined(old(out)@, section@),
{
    if section.should_inline {
        out.append("---\n\n");
        write_body(out, section.content.as_str());
    }
}

/// The overview of a module: its head, its files, the modules below it,
/// links to the sections with files of their own, and the sections that
/// stand in the overview.
pub fn generate_module_md(
    module: &ModuleInfo,
    files: &[&FileEntry],
    outline: &SectionContent,
    memory: &SectionContent,
    imports: &SectionContent,
) -> (res: String)
    ensures
        res@ == module_md(module@, file_ref_views(files@), outline@, memory@, imports@),
{
    let ghost fv = file_ref_views(files@);
    let ghost children = module@.children;
    let mut out = "# ".to_owned();
    if module.path.as_str().is_empty() || str_eq(module.slug.as_str(), "root") {
        out.append("Root Module");
    } else {
        out.append("Module: ");
        out.append(module.path.as_str());
    }
    out.append("\n\n");
    out.append("[← Back to INDEX](../../INDEX.md)\n\n");
    out.append("**Type:** ");
    out.append(module.boundary_type.as_str());
    out.append(" | **Files:** ");
    push_decimal(&mut out, module.file_count());
    out.append("\n\n");
    match &module.entry_point {
        Some(entry) => {
            out.append("**Entry point:** `");
            out.append(entry.as_str());
            out.append("`\n\n");
        },
        None => {},
    }
    assert(out@ == overview_head(module@));
    if files.len() > 0 {
        out.append("## Files\n\n");
        out.append("| File | Lines | Large |\n");
        out.append("| ---- | ----- | ----- |\n");
        let ghost start = out@;
        let mut i: usize = 0;
        while i < files.len()
            invariant
                i <= files@.len(),
                fv == file_ref_views(files@),
                out@ == file_rows(start, fv, i as int),
            decreases files@.len() - i,
        {
            let file = files[i];
            assert(fv[i as int] == file@);
            out.append("| `");
            out.append(file.relative_path.as_str());
            out.append("` | ");
            push_decimal(&mut out, file.line_count);
            out.append(" | ");
            if file.is_large {
                out.append("📊");
            }
            out.append(" |\n");
            i += 1;
        }
        out.append("\n");
    }
    if module.children.len() > 0 {
        out.append("## Child Modules\n\n");
        let ghost start = out@;
        let mut i: usize = 0;
        while i < module.children.len()
            invariant
                i <= module.children@.len(),
                children == strings_view(module.children@),
                out@ == child_links(start, children, i as int),
            decreases module.children@.len() - i,
        {
            let child = module.children[i].as_str();
            assert(children[i as int] == child@);
            out.append("- [");
            out.append(child);
            out.append("](../");
            out.append(child);
            out.append("/MODULE.md)\n");
            i += 1;
        }
        out.append("\n");
    }
    let o = outline.has_separate_file();
    let m = memory.has_separate_file();
    let p = imports.has_separate_file();
    if o || m || p {
        out.append("## Documentation\n\n");
        if o {
            out.append("- [outline.md](outline.md) - Symbol maps for large files\n");
        }
        if m {
            out.append("- [memory.md](memory.md) - Warnings and TODOs\n");
        }
        if p {
            out.append("- [imports.md](imports.md) - Dependencies\n");
        }
        out.append("\n");
    }
    write_inlined(&mut out, outline);
    write_inlined(&mut out, memory);
    write_inlined(&mut out, imports);
    out
}

/// Those of the first `n` files that belong to the module.
pub open spec fn files_in_module(
    mfiles: Seq<Seq<char>>,
    files: Seq<FileEntryView>,
    n: int,
) -> Seq<FileEntryView>
    decreases n,
{
    if n <= 0 {
        Seq::empty()
    } else {
        let prev = files_in_module(mfiles, files, n - 1);
        if mfiles.contains(files[n - 1].relative_path) {
            prev.push(files[n - 1])
        } else {
            prev
        }
    }
}

/// A section with this text: in the overview where it is not empty and
/// shorter than 500 bytes.
pub open spec fn section_of(content: Seq<char>) -> SectionView {
    SectionView {
        content,
        should_inline: 0 < encode_utf8(content).len() < INLINE_THRESHOLD,
    }
}

/// The text of the file of a section: the section where it gets a file of
/// its own, else nothing.
pub open spec fn own_file(section: SectionView) -> Seq<char> {
    if section.separate() {
        section.content
    } else {
        Seq::empty()
    }
}

/// The documents of a module: its overview, and its outline, memory and
/// imports, each of them in the overview where it is short and in a file of
/// its own where not.
pub open spec fn module_content(
    module: ModuleInfoView,
    files: Seq<FileEntryView>,
    items: Seq<(FileEntryView, Seq<SymbolView>)>,
    memory: Seq<MemoryEntryView>,
    graph: FileGraphView,
) -> ModuleContentView {
    let outline = section_of(module_outline(module, items));
    let notes = section_of(module_memory(module, memory));
    let imports = section_of(module_imports(module, graph));
    ModuleContentView {
        module_md: module_md(
            module,
            files_in_module(module.files, files, files.len() as int),
            outline,
            notes,
            imports,
        ),
        outline: own_file(outline),
        memory: own_file(notes),
        imports: own_file(imports),
    }
}

/// The contents of scanned files.
pub open spec fn entry_file_views(s: Seq<FileEntry>) -> Seq<FileEntryView> {
    s.map_values(|f: FileEntry| f@)
}

fn own_file_of(section: SectionContent) -> (res: String)
    ensures
        res@ == own_file(section@),
{
    if section.has_separate_file() {
        section.content
    } else {
        String::new()
    }
}

/// The documents of a module.
pub fn generate_module_content(
    module: &ModuleInfo,
    files: &[FileEntry],
    symbols: &[(FileEntry, Vec<Symbol>)],
    memory: &[MemoryEntry],
    graph: &FileGraph,
) -> (res: ModuleContent)
    ensures
        res@ == module_content(
            module@,
            entry_file_views(files@),
            large_views(symbols@),
            entry_views(memory@),
            graph@,
        ),
{
    let ghost fv = entry_file_views(files@);
    let mut module_files: Vec<&FileEntry> = Vec::new();
    let mut i: usize = 0;
    proof {
        assert(file_ref_views(module_files@) =~= Seq::<FileEntryView>::empty());
    }
    while i < files.len()
        invariant
            i <= files@.len(),
            fv == entry_file_views(files@),
            file_ref_views(module_files@) == files_in_module(module@.files, fv, i as int),
        decreases files@.len() - i,
    {
        let f = &files[i];
        assert(fv[i as int] == f@);
        if module.contains_file(f.relative_path.as_str()) {
            let ghost prev = module_files@;
            module_files.push(f);
            assert(file_ref_views(module_files@) =~= file_ref_views(prev).push(f@));
        }
        i += 1;
    }
    let outline = SectionContent::new(generate_module_outline(module, symbols));
    let notes = SectionContent::new(generate_module_memory(module, memory));
    let imports = SectionContent::new(generate_module_imports(module, graph));
    let module_md = generate_module_md(
        module,
        module_files.as_slice(),
        &outline,
        &notes,
        &imports,
    );
    ModuleContent {
        module_md,
        outline: own_file_of(outline),
        memory: own_file_of(notes),
        imports: own_file_of(imports),
    }
}

} // verus!
