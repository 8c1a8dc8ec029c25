//! The document of one complex file.

use crate::analyze::memory::entry_views;
use crate::text::bytes::str_eq;
use crate::text::chars::{from_chars, replace_char, replaced, to_chars};
use crate::text::decimal::{decimal, push_decimal};
use crate::types::file::{FileEntry, FileEntryView};
use crate::types::memory::{MemoryEntry, MemoryEntryView, Priority};
use crate::types::symbol::{symbol_views, Symbol, SymbolView, Visibility};
use vstd::prelude::*;
use vstd::string::*;

verus! {

/// From how many lines on a file is complex, where nothing else is set.
pub const DEFAULT_COMPLEX_LINES_THRESHOLD: usize = 1000;

/// From how many public symbols on a file is complex, where nothing else is
/// set.
pub const DEFAULT_COMPLEX_SYMBOLS_THRESHOLD: usize = 50;

/// How long a signature may be in a table.
pub const SIGNATURE_WIDTH: usize = 50;

/// How many of the first `n` symbols are public.
pub open spec fn public_count(symbols: Seq<SymbolView>, n: int) -> nat
    decreases n,
{
    if n <= 0 {
        0
    } else {
        public_count(symbols, n - 1) + (if symbols[n - 1].visibility == Visibility::Public {
            1nat
        } else {
            0nat
        })
    }
}

/// How many of the symbols are public.
pub fn count_public(symbols: &[Symbol]) -> (res: usize)
    ensures
        res == public_count(symbol_views(symbols@), symbols@.len() as int),
{
    let ghost views = symbol_views(symbols@);
    let mut count: usize = 0;
    let mut i: usize = 0;
    while i < symbols.len()
        invariant
            i <= symbols@.len(),
            views == symbol_views(symbols@),
            count == public_count(views, i as int),
            count <= i,
        decreases symbols@.len() - i,
    {
        assert(views[i as int] == symbols@[i as int]@);
        if symbols[i].visibility == Visibility::Public {
            count += 1;
        }
        i += 1;
    }
    count
}

/// Whether a file gets a document of its own: it has at least
/// `lines_threshold` lines or at least `symbols_threshold` public symbols.
pub fn is_complex_file(
    file: &FileEntry,
    symbols: &[Symbol],
    lines_threshold: usize,
    symbols_threshold: usize,
) -> (res: bool)
    ensures
        res == (file.line_count >= lines_threshold || public_count(
            symbol_views(symbols@),
            symbols@.len() as int,
        ) >= symbols_threshold),
{
    if file.line_count >= lines_threshold {
        return true;
    }
    count_public(symbols) >= symbols_threshold
}

/// The slug of a file: its path with each slash, backslash and dot made a
/// hyphen.
pub open spec fn dashed(path: Seq<char>) -> Seq<char> {
    Seq::new(
        path.len(),
        |i: int|
            if path[i] == '/' || path[i] == '\\' || path[i] == '.' {
                '-'
            } else {
                path[i]
            },
    )
}

/// The length of `s` without the hyphens at its end.
pub open spec fn without_trailing_hyphens(s: Seq<char>, hi: int) -> int
    decreases hi,
{
    if hi > 0 && hi <= s.len() && s[hi - 1] == '-' {
        without_trailing_hyphens(s, hi - 1)
    } else {
        hi
    }
}

/// The slug of a file: its path with the separators and dots made hyphens,
/// without hyphens at the end.
pub open spec fn file_slug(path: Seq<char>) -> Seq<char> {
    dashed(path).subrange(0, without_trailing_hyphens(dashed(path), path.len() as int))
}

/// The slug under which the document of the file `path` is kept.
pub fn file_path_to_slug(path: &str) -> (res: String)
    ensures
        res@ == file_slug(path@),
{
    let v = to_chars(path);
    let mut out: Vec<char> = Vec::new();
    let mut i: usize = 0;
    while i < v.len()
        invariant
            i <= v@.len(),
            out@ == dashed(v@).subrange(0, i as int),
        decreases v@.len() - i,
    {
        let c = v[i];
        out.push(if c == '/' || c == '\\' || c == '.' { '-' } else { c });
        assert(out@ =~= dashed(v@).subrange(0, i + 1));
        i += 1;
    }
    proof {
        assert(dashed(v@).subrange(0, v@.len() as int) =~= dashed(v@));
    }
    let mut end: usize = out.len();
    while end > 0 && out[end - 1] == '-'
        invariant
            end <= out@.len(),
            without_trailing_hyphens(out@, out@.len() as int) == without_trailing_hyphens(
                out@,
                end as int,
            ),
        decreases end,
    {
        end -= 1;
    }
    from_chars(&out, 0, end)
}

/// `s` from `from` on with each pair of blanks made one blank, pair by pair
/// from the left.
pub open spec fn squeezed(s: Seq<char>, from: int) -> Seq<char>
    decreases s.len() - from,
{
    if from < 0 || from >= s.len() {
        Seq::empty()
    } else if from + 1 < s.len() && s[from] == ' ' && s[from + 1] == ' ' {
        seq![' '] + squeezed(s, from + 2)
    } else {
        seq![s[from]] + squeezed(s, from + 1)
    }
}

/// A signature on one line: line feeds made blanks, then pairs of blanks
/// made one.
pub open spec fn on_one_line(sig: Seq<char>) -> Seq<char> {
    squeezed(replaced(sig, '\n', ' '), 0)
}

/// A signature for a table: on one line, and where that is longer than
/// `max_len` characters, cut so that it ends in three dots and is `max_len`
/// long.
pub open spec fn truncated(sig: Seq<char>, max_len: usize) -> Seq<char> {
    let line = on_one_line(sig);
    if line.len() <= max_len {
        line
    } else {
        line.subrange(
            0,
            if max_len >= 3 {
                max_len - 3
            } else {
                0
            },
        ) + "..."@
    }
}

/// The signature `sig` for a table at most `max_len` characters wide.
pub fn truncate_signature(sig: &str, max_len: usize) -> (res: String)
    ensures
        res@ == truncated(sig@, max_len),
{
    let v = to_chars(sig);
    let flat = replace_char(&v, '\n', ' ');
    let mut line: Vec<char> = Vec::new();
    let n = flat.len();
    let mut i: usize = 0;
    proof {
        assert(line@ + squeezed(flat@, 0) =~= squeezed(flat@, 0));
    }
    while i < n
        invariant
            i <= n,
            n == flat@.len(),
            squeezed(flat@, 0) == line@ + squeezed(flat@, i as int),
        decreases n - i,
    {
        let ghost before = line@;
        if n - i > 1 && flat[i] == ' ' && flat[i + 1] == ' ' {
            line.push(' ');
            proof {
                assert(line@ + squeezed(flat@, i + 2) =~= before + (seq![' '] + squeezed(
                    flat@,
                    i + 2,
                )));
            }
            i += 2;
        } else {
            line.push(flat[i]);
            proof {
                assert(line@ + squeezed(flat@, i + 1) =~= before + (seq![flat@[i as int]]
                    + squeezed(flat@, i + 1)));
            }
            i += 1;
        }
    }
    proof {
        assert(line@ + Seq::<char>::empty() =~= line@);
    }
    if line.len() <= max_len {
        proof {
            assert(line@.subrange(0, line@.len() as int) =~= line@);
        }
        from_chars(&line, 0, line.len())
    } else {
        let keep = if max_len >= 3 {
            max_len - 3
        } else {
            0
        };
        let mut s = from_chars(&line, 0, keep);
        s.append("...");
        s
    }
}

/// The head of the document of a file.
pub open spec fn doc_head(
    file: FileEntryView,
    symbols: Seq<SymbolView>,
    module_slug: Seq<char>,
) -> Seq<char> {
    "# "@ + file.relative_path + "\n\n"@ + "[← Back to Module](../modules/"@ + module_slug
        + "/MODULE.md) | [← Back to INDEX](../INDEX.md)\n\n"@ + "## Overview\n\n"@
        + "- **Lines:** "@ + decimal(file.line_count as nat) + "\n"@ + "- **Language:** "@
        + file.language.label() + "\n"@ + "- **Symbols:** "@ + decimal(symbols.len()) + "\n"@
        + "- **Public symbols:** "@ + decimal(public_count(symbols, symbols.len() as int))
        + "\n\n"@
}

/// `acc` with the row of a symbol in the full table: its line, kind, name
/// and visibility, and its signature for a table, or a hyphen where it has
/// none.
pub open spec fn full_row(acc: Seq<char>, s: SymbolView) -> Seq<char> {
    let cells = acc + "| "@ + decimal(s.line_range.start as nat) + " | "@ + s.kind.label()
        + " | "@ + s.name + " | "@ + s.visibility.label() + " | "@;
    match s.signature {
        Some(sig) => cells + "`"@ + truncated(sig, SIGNATURE_WIDTH) + "`"@ + " |\n"@,
        None => cells + "-"@ + " |\n"@,
    }
}

/// `acc` with the rows of the first `n` symbols.
pub open spec fn full_rows(acc: Seq<char>, symbols: Seq<SymbolView>, n: int) -> Seq<char>
    decreases n,
{
    if n <= 0 {
        acc
    } else {
        full_row(full_rows(acc, symbols, n - 1), symbols[n - 1])
    }
}

/// `acc` with the table of all symbols, if there are any.
pub open spec fn full_table(acc: Seq<char>, symbols: Seq<SymbolView>) -> Seq<char> {
    if symbols.len() == 0 {
        acc
    } else {
        full_rows(
            acc + "## Symbol Table\n\n"@ + "| Line | Kind | Name | Visibility | Signature |\n"@
                + "| ---- | ---- | ---- | ---------- | --------- |\n"@,
            symbols,
            symbols.len() as int,
        ) + "\n"@
    }
}

/// `acc` with the entry of a symbol in the public interface: a public symbol
/// with a signature gets a heading, the signature and its place.
pub open spec fn api_entry(acc: Seq<char>, s: SymbolView) -> Seq<char> {
    match s.signature {
        Some(sig) => if s.visibility == Visibility::Public {
            acc + "### `"@ + s.name + "`\n\n"@ + "```\n"@ + sig + "\n```\n\n"@ + "**Line:** "@
                + decimal(s.line_range.start as nat) + " | **Kind:** "@ + s.kind.label() + "\n\n"@
        } else {
            acc
        },
        None => acc,
    }
}

/// `acc` with the entries of the first `n` symbols.
pub open spec fn api_entries(acc: Seq<char>, symbols: Seq<SymbolView>, n: int) -> Seq<char>
    decreases n,
{
    if n <= 0 {
        acc
    } else {
        api_entry(api_entries(acc, symbols, n - 1), symbols[n - 1])
    }
}

/// `acc` with the public interface, if any symbol is public.
pub open spec fn api_section(acc: Seq<char>, symbols: Seq<SymbolView>) -> Seq<char> {
    if public_count(symbols, symbols.len() as int) == 0 {
        acc
    } else {
        api_entries(acc + "## Public API\n\n"@, symbols, symbols.len() as int)
    }
}

/// The badge of a priority.
pub open spec fn badge(p: Priority) -> Seq<char> {
    match p {
        Priority::High => "🔴"@,
        Priority::Medium => "🟡"@,
        Priority::Low => "🟢"@,
    }
}

/// The badge of a priority.
pub fn priority_badge(p: Priority) -> (res: &'static str)
    ensures
        res@ == badge(p),
{
    match p {
        Priority::High => "🔴",
        Priority::Medium => "🟡",
        Priority::Low => "🟢",
    }
}

/// How many of the first `n` markers stand in the file.
pub open spec fn markers_in(memory: Seq<MemoryEntryView>, file: Seq<char>, n: int) -> nat
    decreases n,
{
    if n <= 0 {
        0
    } else {
        markers_in(memory, file, n - 1) + (if memory[n - 1].source_file == file {
            1nat
        } else {
            0nat
        })
    }
}

/// `acc` with a marker of the file.
pub open spec fn marker_entry(acc: Seq<char>, e: MemoryEntryView) -> Seq<char> {
    acc + "### "@ + badge(e.priority) + " `"@ + e.kind.label() + "` (line "@ + decimal(
        e.line_number as nat,
    ) + ")\n\n> "@ + e.content + "\n\n"@
}

/// `acc` with those of the first `n` markers that stand in the file.
pub open spec fn marker_entries(
    acc: Seq<char>,
    memory: Seq<MemoryEntryView>,
    file: Seq<char>,
    n: int,
) -> Seq<char>
    decreases n,
{
    if n <= 0 {
        acc
    } else {
        let prev = marker_entries(acc, memory, file, n - 1);
        if memory[n - 1].source_file == file {
            marker_entry(prev, memory[n - 1])
        } else {
            prev
        }
    }
}

/// `acc` with the markers of the file, if it has any.
pub open spec fn marker_section(
    acc: Seq<char>,
    memory: Seq<MemoryEntryView>,
    file: Seq<char>,
) -> Seq<char> {
    if markers_in(memory, file, memory.len() as int) == 0 {
        acc
    } else {
        marker_entries(acc + "## Memory Markers\n\n"@, memory, file, memory.len() as int)
    }
}

/// The document of a file: an overview, the table of its symbols, its public
/// interface and its markers.
pub open spec fn file_doc(
    file: FileEntryView,
    symbols: Seq<SymbolView>,
    memory: Seq<MemoryEntryView>,
    module_slug: Seq<char>,
) -> Seq<char> {
    marker_section(
        api_section(full_table(doc_head(file, symbols, module_slug), symbols), symbols),
        memory,
        file.relative_path,
    )
}

fn write_full_row(out: &mut String, sym: &Symbol)
    ensures
        final(out)@ == full_row(old(out)@, sym@),
{
    out.append("| ");
    push_decimal(out, sym.line_range.start);
    out.append(" | ");
    out.append(sym.kind.as_str());
    out.append(" | ");
    out.append(sym.name.as_str());
    out.append(" | ");
    out.append(sym.visibility.as_str());
    out.append(" | ");
    match &sym.signature {
        Some(sig) => {
            out.append("`");
            let t = truncate_signature(sig.as_str(), SIGNATURE_WIDTH);
            out.append(t.as_str());
            out.append("`");
        },
        None => {
            out.append("-");
        },
    }
    out.append(" |\n");
}

fn write_api_entry(out: &mut String, sym: &Symbol)
    ensures
        final(out)@ == api_entry(old(out)@, sym@),
{
    match &sym.signature {
        Some(sig) => {
            if sym.visibility == Visibility::Public {
                out.append("### `");
                out.append(sym.name.as_str());
                out.append("`\n\n");
                out.append("```\n");
                out.append(sig.as_str());
                out.append("\n```\n\n");
                out.append("**Line:** ");
                push_decimal(out, sym.line_range.start);
                out.append(" | **Kind:** ");
                out.append(sym.kind.as_str());
                out.append("\n\n");
            }
        },
        None => {},
    }
}

fn count_markers_in(memory: &[MemoryEntry], file: &str) -> (res: usize)
    ensures
        (res == 0) == (markers_in(entry_views(memory@), file@, memory@.len() as int) == 0),
{
    let ghost views = entry_views(memory@);
    let mut i: usize = 0;
    while i < memory.len()
        invariant
            i <= memory@.len(),
            views == entry_views(memory@),
            markers_in(views, file@, i as int) == 0,
        decreases memory@.len() - i,
    {
        assert(views[i as int] == memory@[i as int]@);
        if str_eq(memory[i].source_file.as_str(), file) {
            proof {
                lemma_markers_in_grows(views, file@, i + 1, memory@.len() as int);
            }
            return 1;
        }
        i += 1;
    }
    0
}

proof fn lemma_markers_in_grows(memory: Seq<MemoryEntryView>, file: Seq<char>, a: int, b: int)
    requires
        a <= b,
    ensures
        markers_in(memory, file, a) <= markers_in(memory, file, b),
    decreases b - a,
{
    if a < b {
        lemma_markers_in_grows(memory, file, a, b - 1);
    }
}

/// The document of a file.
pub fn generate_file_doc(
    file: &FileEntry,
    symbols: &[Symbol],
    memory: &[MemoryEntry],
    module_slug: &str,
) -> (res: String)
    ensures
        res@ == file_doc(file@, symbol_views(symbols@), entry_views(memory@), module_slug@),
{
    let ghost views = symbol_views(symbols@);
    let ghost marks = entry_views(memory@);
    let mut out = "# ".to_owned();
    out.append(file.relative_path.as_str());
    out.append("\n\n");
    out.append("[← Back to Module](../modules/");
    out.append(module_slug);
    out.append("/MODULE.md) | [← Back to INDEX](../INDEX.md)\n\n");
    out.append("## Overview\n\n");
    out.append("- **Lines:** ");
    push_decimal(&mut out, file.line_count);
    out.append("\n");
    out.append("- **Language:** ");
    out.append(file.language.as_str());
    out.append("\n");
    out.append("- **Symbols:** ");
    push_decimal(&mut out, symbols.len());
    out.append("\n");
    out.append("- **Public symbols:** ");
    let public = count_public(symbols);
    push_decimal(&mut out, public);
    out.append("\n\n");
    assert(out@ == doc_head(file@, views, module_slug@));
    if symbols.len() > 0 {
        out.append("## Symbol Table\n\n");
        out.append("| Line | Kind | Name | Visibility | Signature |\n");
        out.append("| ---- | ---- | ---- | ---------- | --------- |\n");
        let ghost start = out@;
        let mut i: usize = 0;
        while i < symbols.len()
            invariant
                i <= symbols@.len(),
                views == symbol_views(symbols@),
                out@ == full_rows(start, views, i as int),
            decreases symbols@.len() - i,
        {
            assert(views[i as int] == symbols@[i as int]@);
            write_full_row(&mut out, &symbols[i]);
            i += 1;
        }
        out.append("\n");
    }
    assert(out@ == full_table(doc_head(file@, views, module_slug@), views));
    if public > 0 {
        out.append("## Public API\n\n");
        let ghost start = out@;
        let mut i: usize = 0;
        while i < symbols.len()
            invariant
                i <= symbols@.len(),
                views == symbol_views(symbols@),
                out@ == api_entries(start, views, i as int),
            decreases symbols@.len() - i,
        {
            assert(views[i as int] == symbols@[i as int]@);
            write_api_entry(&mut out, &symbols[i]);
            i += 1;
        }
    }
    let path = file.relative_path.as_str();
    if count_markers_in(memory, path) > 0 {
        out.append("## Memory Markers\n\n");
        let ghost start = out@;
        let mut i: usize = 0;
        while i < memory.len()
            invariant
                i <= memory@.len(),
                marks == entry_views(memory@),
                path@ == file@.relative_path,
                out@ == marker_entries(start, marks, path@, i as int),
            decreases memory@.len() - i,
        {
            let e = &memory[i];
            assert(marks[i as int] == e@);
            if str_eq(e.source_file.as_str(), path) {
                out.append("### ");
                out.append(priority_badge(e.priority));
                out.append(" `");
                out.append(e.kind.as_str());
                out.append("` (line ");
                push_decimal(&mut out, e.line_number);
                out.append(")\n\n> ");
                out.append(e.content.as_str());
                out.append("\n\n");
            }
            i += 1;
        }
    }
    out
}

} // verus!
