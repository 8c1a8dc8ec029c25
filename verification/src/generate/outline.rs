//! The outline: symbol tables of the large files.

use crate::runner::large_views;
use crate::text::chars::{from_chars, to_chars};
use crate::text::decimal::{decimal, push_decimal};
use crate::types::file::{FileEntry, FileEntryView};
use crate::types::symbol::{symbol_views, Symbol, SymbolKind, SymbolView, Visibility};
use vstd::prelude::*;
use vstd::string::*;

verus! {

/// A path as the anchor of its section: slashes and dots made hyphens, ASCII
/// capitals made small.
pub open spec fn anchor_of(path: Seq<char>) -> Seq<char> {
    Seq::new(path.len(), |i: int| anchor_char(path[i]))
}

/// One character of an anchor.
pub open spec fn anchor_char(c: char) -> char {
    if c == '/' || c == '.' {
        '-'
    } else if 'A' <= c <= 'Z' {
        ((c as u8) + 32) as char
    } else {
        c
    }
}

/// The anchor of the section of the file `path`.
pub fn anchor_for(path: &str) -> (res: String)
    ensures
        res@ == anchor_of(path@),
{
    let v = to_chars(path);
    let mut out: Vec<char> = Vec::new();
    let mut i: usize = 0;
    while i < v.len()
        invariant
            i <= v@.len(),
            out@ == anchor_of(v@).subrange(0, i as int),
        decreases v@.len() - i,
    {
        let c = v[i];
        let a = if c == '/' || c == '.' {
            '-'
        } else if 'A' <= c && c <= 'Z' {
            ((c as u8) + 32) as char
        } else {
            c
        };
        out.push(a);
        assert(out@ =~= anchor_of(v@).subrange(0, i + 1));
        i += 1;
    }
    proof {
        assert(anchor_of(v@).subrange(0, v@.len() as int) =~= anchor_of(v@));
        assert(out@.subrange(0, out@.len() as int) =~= out@);
    }
    from_chars(&out, 0, out.len())
}

/// `acc` with one line of the table of contents.
pub open spec fn toc_line(acc: Seq<char>, file: FileEntryView, symbols: nat) -> Seq<char> {
    acc + "- ["@ + file.relative_path + "](#"@ + anchor_of(file.relative_path) + ") ("@ + decimal(
        file.line_count as nat,
    ) + " lines, "@ + decimal(symbols) + " symbols)\n"@
}

/// `acc` with the lines of the table of contents for the first `n` files.
pub open spec fn toc(
    acc: Seq<char>,
    files: Seq<(FileEntryView, Seq<SymbolView>)>,
    n: int,
) -> Seq<char>
    decreases n,
{
    if n <= 0 {
        acc
    } else {
        toc_line(toc(acc, files, n - 1), files[n - 1].0, files[n - 1].1.len())
    }
}

/// `acc` with the row of a symbol in a symbol table.
pub open spec fn symbol_row(acc: Seq<char>, s: SymbolView) -> Seq<char> {
    acc + "| "@ + decimal(s.line_range.start as nat) + " | "@ + s.kind.label() + " | "@ + s.name
        + " | "@ + s.visibility.label() + " |\n"@
}

/// `acc` with the rows of the first `n` symbols.
pub open spec fn symbol_rows(acc: Seq<char>, symbols: Seq<SymbolView>, n: int) -> Seq<char>
    decreases n,
{
    if n <= 0 {
        acc
    } else {
        symbol_row(symbol_rows(acc, symbols, n - 1), symbols[n - 1])
    }
}

/// `acc` with the head of a symbol table and the rows of the symbols.
pub open spec fn symbol_table(acc: Seq<char>, symbols: Seq<SymbolView>) -> Seq<char> {
    symbol_rows(
        acc + "| Line | Kind | Name | Visibility |\n"@
            + "| ---- | ---- | ---- | ---------- |\n"@,
        symbols,
        symbols.len() as int,
    )
}

/// Whether a symbol is an entry into a file: a public function, class or
/// struct.
pub open spec fn is_key_entry(s: SymbolView) -> bool {
    s.visibility == Visibility::Public && (s.kind == SymbolKind::Function || s.kind
        == SymbolKind::Class || s.kind == SymbolKind::Struct)
}

/// How many of the first `n` symbols are entries.
pub open spec fn key_count(symbols: Seq<SymbolView>, n: int) -> nat
    decreases n,
{
    if n <= 0 {
        0
    } else {
        key_count(symbols, n - 1) + (if is_key_entry(symbols[n - 1]) {
            1nat
        } else {
            0nat
        })
    }
}

/// How many entries are listed at most.
pub const KEY_ENTRY_LIMIT: usize = 5;

/// `acc` with the line of an entry: its signature, or its name where it has
/// none, and its line.
pub open spec fn key_line(acc: Seq<char>, s: SymbolView) -> Seq<char> {
    acc + "- `"@ + (match s.signature {
        Some(sig) => sig,
        None => s.name,
    }) + "` (L"@ + decimal(s.line_range.start as nat) + ")\n"@
}

/// `acc` with the lines of the first five entries among the first `n`
/// symbols.
pub open spec fn key_lines(acc: Seq<char>, symbols: Seq<SymbolView>, n: int) -> Seq<char>
    decreases n,
{
    if n <= 0 {
        acc
    } else {
        let prev = key_lines(acc, symbols, n - 1);
        if is_key_entry(symbols[n - 1]) && key_count(symbols, n - 1) < KEY_ENTRY_LIMIT {
            key_line(prev, symbols[n - 1])
        } else {
            prev
        }
    }
}

/// `acc` with the section of a file.
pub open spec fn file_section(
    acc: Seq<char>,
    file: FileEntryView,
    symbols: Seq<SymbolView>,
) -> Seq<char> {
    let head = acc + "## "@ + file.relative_path + " ("@ + decimal(file.line_count as nat)
        + " lines)\n\n"@;
    let body = if symbols.len() == 0 {
        head + "_No symbols extracted._\n\n"@
    } else {
        let table = symbol_table(head, symbols) + "\n"@;
        if key_count(symbols, symbols.len() as int) > 0 {
            key_lines(table + "### Key Entry Points\n\n"@, symbols, symbols.len() as int) + "\n"@
        } else {
            table
        }
    };
    body + "---\n\n"@
}

/// `acc` with the sections of the first `n` files.
pub open spec fn file_sections(
    acc: Seq<char>,
    files: Seq<(FileEntryView, Seq<SymbolView>)>,
    n: int,
) -> Seq<char>
    decreases n,
{
    if n <= 0 {
        acc
    } else {
        file_section(file_sections(acc, files, n - 1), files[n - 1].0, files[n - 1].1)
    }
}

/// The outline of the large files: a table of contents, and for each file
/// its symbols and its first five entries.
pub open spec fn outline_of(files: Seq<(FileEntryView, Seq<SymbolView>)>) -> Seq<char> {
    if files.len() == 0 {
        "# Outline\n\nNo large files found in this repository."@
    } else {
        file_sections(
            toc(
                "# Code Outline\n\n"@
                    + "This file contains symbol maps for large files in the codebase.\n\n"@
                    + "## Table of Contents\n\n"@,
                files,
                files.len() as int,
            ) + "\n---\n\n"@,
            files,
            files.len() as int,
        )
    }
}

/// Puts the row of a symbol at the end of `out`.
pub fn write_symbol_row(out: &mut String, sym: &Symbol)
    ensures
        final(out)@ == symbol_row(old(out)@, sym@),
{
    out.append("| ");
    push_decimal(out, sym.line_range.start);
    out.append(" | ");
    out.append(sym.kind.as_str());
    out.append(" | ");
    out.append(sym.name.as_str());
    out.append(" | ");
    out.append(sym.visibility.as_str());
    out.append(" |\n");
}

/// Puts a symbol table at the end of `out`.
pub fn write_symbol_table(out: &mut String, symbols: &[Symbol])
    ensures
        final(out)@ == symbol_table(old(out)@, symbol_views(symbols@)),
{
    out.append("| Line | Kind | Name | Visibility |\n");
    out.append("| ---- | ---- | ---- | ---------- |\n");
    let ghost start = out@;
    let ghost views = symbol_views(symbols@);
    let mut i: usize = 0;
    while i < symbols.len()
        invariant
            i <= symbols@.len(),
            views == symbol_views(symbols@),
            out@ == symbol_rows(start, views, i as int),
        decreases symbols@.len() - i,
    {
        assert(views[i as int] == symbols@[i as int]@);
        write_symbol_row(out, &symbols[i]);
        i += 1;
    }
}

/// Whether a symbol is an entry into a file.
pub fn key_entry(sym: &Symbol) -> (res: bool)
    ensures
        res == is_key_entry(sym@),
{
    sym.visibility == Visibility::Public && (sym.kind == SymbolKind::Function || sym.kind
        == SymbolKind::Class || sym.kind == SymbolKind::Struct)
}

/// How many of the symbols are entries, counted up to the limit and one
/// more.
fn count_key_entries(symbols: &[Symbol]) -> (res: usize)
    ensures
        (res > 0) == (key_count(symbol_views(symbols@), symbols@.len() as int) > 0),
{
    let ghost views = symbol_views(symbols@);
    let mut i: usize = 0;
    while i < symbols.len()
        invariant
            i <= symbols@.len(),
            views == symbol_views(symbols@),
            key_count(views, i as int) == 0,
        decreases symbols@.len() - i,
    {
        assert(views[i as int] == symbols@[i as int]@);
        if key_entry(&symbols[i]) {
            proof {
                lemma_key_count_grows(views, i + 1, symbols@.len() as int);
            }
            return 1;
        }
        i += 1;
    }
    0
}

proof fn lemma_key_count_grows(symbols: Seq<SymbolView>, a: int, b: int)
    requires
        a <= b,
    ensures
        key_count(symbols, a) <= key_count(symbols, b),
    decreases b - a,
{
    if a < b {
        lemma_key_count_grows(symbols, a, b - 1);
    }
}

/// Puts the section of a file at the end of `out`.
pub fn write_file_section(out: &mut String, file: &FileEntry, symbols: &[Symbol])
    ensures
        final(out)@ == file_section(old(out)@, file@, symbol_views(symbols@)),
{
    let ghost views = symbol_views(symbols@);
    out.append("## ");
    out.append(file.relative_path.as_str());
    out.append(" (");
    push_decimal(out, file.line_count);
    out.append(" lines)\n\n");
    if symbols.len() == 0 {
        out.append("_No symbols extracted._\n\n");
    } else {
        write_symbol_table(out, symbols);
        out.append("\n");
        if count_key_entries(symbols) > 0 {
            out.append("### Key Entry Points\n\n");
            let ghost start = out@;
            let mut taken: usize = 0;
            let mut i: usize = 0;
            while i < symbols.len()
                invariant
                    i <= symbols@.len(),
                    views == symbol_views(symbols@),
                    taken <= KEY_ENTRY_LIMIT,
                    taken == if key_count(views, i as int) < KEY_ENTRY_LIMIT {
                        key_count(views, i as int)
                    } else {
                        KEY_ENTRY_LIMIT as nat
                    },
                    out@ == key_lines(start, views, i as int),
                decreases symbols@.len() - i,
            {
                let sym = &symbols[i];
                assert(views[i as int] == sym@);
                if key_entry(sym) && taken < KEY_ENTRY_LIMIT {
                    out.append("- `");
                    match &sym.signature {
                        Some(sig) => out.append(sig.as_str()),
                        None => out.append(sym.name.as_str()),
                    }
                    out.append("` (L");
                    push_decimal(out, sym.line_range.start);
                    out.append(")\n");
                    taken += 1;
                }
                i += 1;
            }
            out.append("\n");
        }
    }
    out.append("---\n\n");
}

/// The outline of the large files.
pub fn generate_outline(files: &[(FileEntry, Vec<Symbol>)]) -> (res: String)
    ensures
        res@ == outline_of(large_views(files@)),
{
    if files.len() == 0 {
        return "# Outline\n\nNo large files found in this repository.".to_owned();
    }
    let ghost views = large_views(files@);
    let mut out = "# Code Outline\n\n".to_owned();
    out.append("This file contains symbol maps for large files in the codebase.\n\n");
    out.append("## Table of Contents\n\n");
    let ghost start = out@;
    let mut i: usize = 0;
    while i < files.len()
        invariant
            i <= files@.len(),
            views == large_views(files@),
            out@ == toc(start, views, i as int),
        decreases files@.len() - i,
    {
        let file = &files[i].0;
        proof {
            assert(views[i as int] == (file@, symbol_views(files@[i as int].1@)));
        }
        out.append("- [");
        out.append(file.relative_path.as_str());
        out.append("](#");
        let anchor = anchor_for(file.relative_path.as_str());
        out.append(anchor.as_str());
        out.append(") (");
        push_decimal(&mut out, file.line_count);
        out.append(" lines, ");
        push_decimal(&mut out, files[i].1.len());
        out.append(" symbols)\n");
        i += 1;
    }
    out.append("\n---\n\n");
    let ghost body = out@;
    let mut k: usize = 0;
    while k < files.len()
        invariant
            k <= files@.len(),
            views == large_views(files@),
            out@ == file_sections(body, views, k as int),
        decreases files@.len() - k,
    {
        proof {
            assert(views[k as int] == (files@[k as int].0@, symbol_views(files@[k as int].1@)));
        }
        write_file_section(&mut out, &files[k].0, files[k].1.as_slice());
        k += 1;
    }
    out
}

/// The outline of one file: its path as the title and the table of its
/// symbols, or a note that it has none.
pub open spec fn symbols_outline(path: Seq<char>, symbols: Seq<SymbolView>) -> Seq<char> {
    if symbols.len() == 0 {
        "# "@ + path + "\n\nNo symbols found."@
    } else {
        symbol_table("# "@ + path + "\n\n"@, symbols)
    }
}

/// The outline of the file `file_path` with the given symbols.
pub fn format_symbols_as_outline(file_path: &str, symbols: &[Symbol]) -> (res: String)
    ensures
        res@ == symbols_outline(file_path@, symbol_views(symbols@)),
{
    let mut out = "# ".to_owned();
    out.append(file_path);
    if symbols.len() == 0 {
        out.append("\n\nNo symbols found.");
        return out;
    }
    out.append("\n\n");
    write_symbol_table(&mut out, symbols);
    out
}

} // verus!
