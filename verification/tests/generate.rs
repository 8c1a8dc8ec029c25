use agentmap::analyze::graph::FileGraph;
use agentmap::analyze::module::{BoundaryType, ModuleInfo};
use agentmap::generate::file_doc::{
    file_path_to_slug, generate_file_doc, is_complex_file, truncate_signature,
};
use agentmap::generate::memory::{generate_memory, get_critical_files};
use agentmap::generate::module_content::{
    generate_module_content, generate_module_imports, generate_module_md, generate_module_memory,
    generate_module_outline, path_to_module_name, sanitize_mermaid_id, strip_navigation_header,
    SectionContent,
};
use agentmap::generate::outline::generate_outline;
use agentmap::types::{
    FileEntry, Language, LineRange, MemoryEntry, MemoryKind, Priority, Symbol, SymbolKind,
    Visibility,
};

fn make_module(path: &str, files: Vec<String>) -> ModuleInfo {
    let mut module = ModuleInfo::new(path, BoundaryType::RustModule, None);
    for f in files {
        module.add_file(f);
    }
    module
}

fn make_file(path: &str, lines: usize) -> FileEntry {
    FileEntry {
        path: path.to_string(),
        relative_path: path.to_string(),
        extension: Some("rs".to_string()),
        language: Language::Rust,
        size_bytes: 1000,
        line_count: lines,
        is_large: lines > 500,
    }
}

fn make_symbol(name: &str, visibility: Visibility) -> Symbol {
    Symbol {
        name: name.to_string(),
        kind: SymbolKind::Function,
        visibility,
        line_range: LineRange { start: 1, end: 10 },
        signature: Some(format!("fn {}()", name)),
        doc_comment: None,
    }
}

#[test]
fn test_is_complex_by_lines() {
    let file = make_file("big.rs", 1500);
    let symbols: Vec<Symbol> = vec![];

    assert!(is_complex_file(&file, &symbols, 1000, 50));
}

#[test]
fn test_is_complex_by_symbols() {
    let file = make_file("many_symbols.rs", 500);
    let symbols: Vec<Symbol> = (0..60)
        .map(|i| make_symbol(&format!("func{}", i), Visibility::Public))
        .collect();

    assert!(is_complex_file(&file, &symbols, 1000, 50));
}

#[test]
fn test_not_complex() {
    let file = make_file("simple.rs", 100);
    let symbols: Vec<Symbol> = (0..10)
        .map(|i| make_symbol(&format!("func{}", i), Visibility::Public))
        .collect();

    assert!(!is_complex_file(&file, &symbols, 1000, 50));
}

#[test]
fn private_symbols_do_not_make_a_file_complex() {
    let file = make_file("private.rs", 999);
    let symbols: Vec<Symbol> = (0..60)
        .map(|i| make_symbol(&format!("func{}", i), Visibility::Private))
        .collect();
    assert!(!is_complex_file(&file, &symbols, 1000, 50));
    assert!(is_complex_file(&file, &symbols, 999, 50));
    assert!(is_complex_file(&file, &symbols, 1000, 0));
}

#[test]
fn test_file_path_to_slug() {
    assert_eq!(
        file_path_to_slug("src/analyze/parser.rs"),
        "src-analyze-parser-rs"
    );
    assert_eq!(file_path_to_slug("main.rs"), "main-rs");
}

#[test]
fn file_slug_has_no_trailing_hyphen() {
    assert_eq!(file_path_to_slug("src/dir/"), "src-dir");
    assert_eq!(file_path_to_slug("a.b.."), "a-b");
    assert_eq!(file_path_to_slug(""), "");
}

#[test]
fn test_generate_file_doc() {
    let file = make_file("src/big.rs", 1500);
    let symbols = vec![make_symbol("my_func", Visibility::Public)];
    let memory: Vec<MemoryEntry> = vec![];

    let result = generate_file_doc(&file, &symbols, &memory, "src");

    assert!(result.contains("# src/big.rs"));
    assert!(result.contains("Lines:** 1500"));
    assert!(result.contains("## Symbol Table"));
    assert!(result.contains("## Public API"));
    assert!(result.contains("my_func"));
}

#[test]
fn file_doc_is_exact() {
    let file = make_file("src/big.rs", 1500);
    let symbols = vec![
        make_symbol("my_func", Visibility::Public),
        Symbol::new(SymbolKind::Const, "LIMIT".to_string(), 12, Visibility::Private),
    ];
    let memory = vec![
        MemoryEntry::new(MemoryKind::Todo, "later".to_string(), "src/big.rs".to_string(), 7),
        MemoryEntry::new(MemoryKind::Warning, "elsewhere".to_string(), "src/other.rs".to_string(), 1),
    ];
    let result = generate_file_doc(&file, &symbols, &memory, "src");
    let expected = "# src/big.rs\n\n\
[← Back to Module](../modules/src/MODULE.md) | [← Back to INDEX](../INDEX.md)\n\n\
## Overview\n\n\
- **Lines:** 1500\n\
- **Language:** Rust\n\
- **Symbols:** 2\n\
- **Public symbols:** 1\n\n\
## Symbol Table\n\n\
| Line | Kind | Name | Visibility | Signature |\n\
| ---- | ---- | ---- | ---------- | --------- |\n\
| 1 | fn | my_func | pub | `fn my_func()` |\n\
| 12 | const | LIMIT | (private) | - |\n\n\
## Public API\n\n\
### `my_func`\n\n\
```\nfn my_func()\n```\n\n\
**Line:** 1 | **Kind:** fn\n\n\
## Memory Markers\n\n\
### 🟡 `TODO` (line 7)\n\n> later\n\n";
    assert_eq!(result, expected);
}

#[test]
fn test_truncate_signature() {
    let short = "fn foo()";
    assert_eq!(truncate_signature(short, 50), short);

    let long = "fn very_long_function_name_with_many_parameters(a: i32, b: i32, c: String, d: Vec<u8>) -> Result<(), Error>";
    let truncated = truncate_signature(long, 50);
    assert!(truncated.len() <= 50);
    assert!(truncated.ends_with("..."));
}

#[test]
fn truncate_signature_joins_lines_and_squeezes_blanks() {
    assert_eq!(truncate_signature("fn f(\n  a: u8)", 50), "fn f(  a: u8)");
    assert_eq!(truncate_signature("a  b", 50), "a b");
    assert_eq!(truncate_signature("a   b", 50), "a  b");
    assert_eq!(truncate_signature("a    b", 50), "a  b");
    assert_eq!(truncate_signature("abcdefghij", 8), "abcde...");
    assert_eq!(truncate_signature("abcdefgh", 8), "abcdefgh");
    assert_eq!(truncate_signature("abcdefgh", 2), "...");
}

#[test]
fn test_empty_entries() {
    let result = generate_memory(&[]);
    assert!(result.contains("No memory markers found"));
}

#[test]
fn test_generates_summary() {
    let entries = vec![
        MemoryEntry::new(
            MemoryKind::Warning,
            "This is dangerous".to_string(),
            "src/lib.rs".to_string(),
            10,
        ),
        MemoryEntry::new(
            MemoryKind::Todo,
            "Implement this".to_string(),
            "src/main.rs".to_string(),
            20,
        ),
    ];

    let result = generate_memory(&entries);
    assert!(result.contains("## Summary"));
    assert!(result.contains("Warnings"));
    assert!(result.contains("Technical Debt"));
}

#[test]
fn memory_document_is_exact_and_sorted() {
    let entries = vec![
        MemoryEntry::new(MemoryKind::Todo, "b".to_string(), "src/z.rs".to_string(), 3),
        MemoryEntry::new(MemoryKind::Deprecated, "old".to_string(), "src/z.rs".to_string(), 9),
        MemoryEntry::new(MemoryKind::Fixme, "a".to_string(), "src/a.rs".to_string(), 30),
        MemoryEntry::new(MemoryKind::Fixme, "c".to_string(), "src/a.rs".to_string(), 4),
    ];
    let result = generate_memory(&entries);
    let expected = "# Memory\n\n\
This file contains extracted knowledge markers from the codebase.\n\n\
## Summary\n\n\
| Category | Count | High | Medium | Low |\n\
| -------- | ----- | ---- | ------ | --- |\n\
| 🔧 Technical Debt | 4 | 1 | 3 | 0 |\n\
\n---\n\n\
## 🔧 Technical Debt\n\n\
### 🔴 `DEPRECATED` (src/z.rs:9)\n\n> old\n\n\
### 🟡 `FIXME` (src/a.rs:4)\n\n> c\n\n\
### 🟡 `FIXME` (src/a.rs:30)\n\n> a\n\n\
### 🟡 `TODO` (src/z.rs:3)\n\n> b\n\n\
---\n\n";
    assert_eq!(result, expected);
}

#[test]
fn test_critical_files() {
    let entries = vec![
        MemoryEntry::new(
            MemoryKind::Warning,
            "Warning 1".to_string(),
            "src/danger.rs".to_string(),
            10,
        ),
        MemoryEntry::new(
            MemoryKind::Safety,
            "Safety note".to_string(),
            "src/danger.rs".to_string(),
            20,
        ),
        MemoryEntry::new(
            MemoryKind::Todo,
            "Todo item".to_string(),
            "src/other.rs".to_string(),
            5,
        ),
    ];

    let critical = get_critical_files(&entries);
    assert_eq!(critical.len(), 1); // Only danger.rs has high-priority
    assert_eq!(critical[0].0, "src/danger.rs");
    assert_eq!(critical[0].1, 2);
}

#[test]
fn critical_files_are_ranked_by_count_then_name() {
    let high = |file: &str, line: usize| {
        MemoryEntry::new(MemoryKind::Warning, "w".to_string(), file.to_string(), line)
    };
    let entries = vec![high("b.rs", 1), high("c.rs", 1), high("a.rs", 1), high("c.rs", 2)];
    let critical = get_critical_files(&entries);
    assert_eq!(
        critical,
        vec![("c.rs".to_string(), 2), ("a.rs".to_string(), 1), ("b.rs".to_string(), 1)]
    );
    let lowered = vec![high("a.rs", 1).with_priority(Priority::Low)];
    assert!(get_critical_files(&lowered).is_empty());
}

#[test]
fn test_generate_module_md_with_separate_files() {
    let module = make_module("src/analyze", vec!["src/analyze/mod.rs".to_string()]);
    let files = vec![make_file("src/analyze/mod.rs", 100)];
    let file_refs: Vec<&FileEntry> = files.iter().collect();

    let outline = SectionContent {
        content: "x".repeat(600),
        should_inline: false,
    };
    let memory = SectionContent {
        content: "x".repeat(600),
        should_inline: false,
    };
    let imports = SectionContent {
        content: "x".repeat(600),
        should_inline: false,
    };

    let result = generate_module_md(&module, &file_refs, &outline, &memory, &imports);

    assert!(result.contains("# Module: src/analyze"));
    assert!(result.contains("Back to INDEX"));
    assert!(result.contains("src/analyze/mod.rs"));
    assert!(result.contains("outline.md"));
    assert!(result.contains("memory.md"));
    assert!(result.contains("imports.md"));
}

#[test]
fn test_generate_module_md_with_inline_content() {
    let module = make_module("src/analyze", vec!["src/analyze/mod.rs".to_string()]);
    let files = vec![make_file("src/analyze/mod.rs", 100)];
    let file_refs: Vec<&FileEntry> = files.iter().collect();

    let imports_content = "# Imports\n\n[nav]\n\nExternal: crate_a".to_string();
    let outline = SectionContent {
        content: String::new(),
        should_inline: false,
    };
    let memory = SectionContent {
        content: String::new(),
        should_inline: false,
    };
    let imports = SectionContent {
        content: imports_content,
        should_inline: true,
    };

    let result = generate_module_md(&module, &file_refs, &outline, &memory, &imports);

    assert!(result.contains("# Module: src/analyze"));
    assert!(!result.contains("imports.md"));
    assert!(result.contains("External: crate_a"));
}

#[test]
fn test_generate_module_md_no_docs() {
    let module = make_module("src/analyze", vec!["src/analyze/mod.rs".to_string()]);
    let files = vec![make_file("src/analyze/mod.rs", 100)];
    let file_refs: Vec<&FileEntry> = files.iter().collect();

    let outline = SectionContent {
        content: String::new(),
        should_inline: false,
    };
    let memory = SectionContent {
        content: String::new(),
        should_inline: false,
    };
    let imports = SectionContent {
        content: String::new(),
        should_inline: false,
    };

    let result = generate_module_md(&module, &file_refs, &outline, &memory, &imports);

    assert!(result.contains("# Module: src/analyze"));
    assert!(!result.contains("outline.md"));
    assert!(!result.contains("memory.md"));
    assert!(!result.contains("imports.md"));
}

#[test]
fn module_md_is_exact() {
    let mut module = ModuleInfo::new("src/big", BoundaryType::Directory, Some("src/big/mod.rs".to_string()));
    module.add_file("src/big/mod.rs".to_string());
    module.add_file("src/big/huge.rs".to_string());
    module.add_child("src-big-inner".to_string());
    let files = vec![make_file("src/big/mod.rs", 10), make_file("src/big/huge.rs", 600)];
    let file_refs: Vec<&FileEntry> = files.iter().collect();
    let outline = SectionContent::new("y".repeat(500));
    let memory = SectionContent::new("# Memory\n\n[nav](x)\n\nfirst\r\nsecond\n".to_string());
    let imports = SectionContent::new(String::new());
    assert!(outline.has_separate_file());
    assert!(!memory.has_separate_file() && memory.should_inline);
    assert!(!imports.has_separate_file() && !imports.should_inline);
    let result = generate_module_md(&module, &file_refs, &outline, &memory, &imports);
    let expected = "# Module: src/big\n\n\
[← Back to INDEX](../../INDEX.md)\n\n\
**Type:** directory | **Files:** 2\n\n\
**Entry point:** `src/big/mod.rs`\n\n\
## Files\n\n\
| File | Lines | Large |\n\
| ---- | ----- | ----- |\n\
| `src/big/mod.rs` | 10 |  |\n\
| `src/big/huge.rs` | 600 | 📊 |\n\n\
## Child Modules\n\n\
- [src-big-inner](../src-big-inner/MODULE.md)\n\n\
## Documentation\n\n\
- [outline.md](outline.md) - Symbol maps for large files\n\n\
---\n\nfirst\nsecond";
    assert_eq!(result, expected);
}

#[test]
fn root_module_has_its_own_title() {
    let module = ModuleInfo::new("", BoundaryType::Root, None);
    assert_eq!(module.slug, "root");
    let none = SectionContent::new(String::new());
    let result = generate_module_md(&module, &[], &none, &none, &none);
    assert_eq!(
        result,
        "# Root Module\n\n[← Back to INDEX](../../INDEX.md)\n\n**Type:** root | **Files:** 0\n\n"
    );
}

#[test]
fn navigation_header_is_stripped() {
    assert_eq!(strip_navigation_header("# T\n\n[a](b)\n\nbody\n# later\n"), "body\n# later");
    assert_eq!(strip_navigation_header("# only\n\n"), "");
    assert_eq!(strip_navigation_header("plain"), "plain");
    assert_eq!(strip_navigation_header(""), "");
}

#[test]
fn test_generate_module_outline_empty() {
    let module = make_module("src/small", vec!["src/small/mod.rs".to_string()]);
    let symbols: Vec<(FileEntry, Vec<Symbol>)> = vec![];

    let result = generate_module_outline(&module, &symbols);

    assert!(result.is_empty());
}

#[test]
fn module_outline_lists_only_files_of_the_module() {
    let module = make_module("src/m", vec!["src/m/a.rs".to_string(), "src/m/b.rs".to_string()]);
    let symbols = vec![
        (make_file("src/m/a.rs", 700), vec![make_symbol("f", Visibility::Public)]),
        (make_file("src/other/c.rs", 800), vec![make_symbol("g", Visibility::Public)]),
        (make_file("src/m/b.rs", 900), vec![]),
    ];
    let result = generate_module_outline(&module, &symbols);
    let expected = "# Outline\n\n\
[← Back to MODULE](MODULE.md) | [← Back to INDEX](../../INDEX.md)\n\n\
Symbol maps for 2 large files in this module.\n\n\
## src/m/a.rs (700 lines)\n\n\
| Line | Kind | Name | Visibility |\n\
| ---- | ---- | ---- | ---------- |\n\
| 1 | fn | f | pub |\n\n\
## src/m/b.rs (900 lines)\n\n\
_No symbols extracted._\n\n";
    assert_eq!(result, expected);
}

#[test]
fn test_generate_module_memory_empty() {
    let module = make_module("src/clean", vec!["src/clean/mod.rs".to_string()]);
    let memory: Vec<MemoryEntry> = vec![];

    let result = generate_module_memory(&module, &memory);

    assert!(result.is_empty());
}

#[test]
fn test_generate_module_memory_with_entries() {
    let module = make_module("src/warn", vec!["src/warn/mod.rs".to_string()]);
    let memory = vec![MemoryEntry {
        kind: MemoryKind::Warning,
        content: "This is dangerous".to_string(),
        source_file: "src/warn/mod.rs".to_string(),
        line_number: 10,
        priority: Priority::High,
    }];

    let result = generate_module_memory(&module, &memory);

    assert!(result.contains("High Priority"));
    assert!(result.contains("This is dangerous"));
}

#[test]
fn module_memory_is_exact() {
    let module = make_module("src/w", vec!["src/w/mod.rs".to_string()]);
    let memory = vec![
        MemoryEntry::new(MemoryKind::Note, "n".to_string(), "src/w/mod.rs".to_string(), 2)
            .with_priority(Priority::Low),
        MemoryEntry::new(MemoryKind::Warning, "w".to_string(), "src/w/mod.rs".to_string(), 10),
        MemoryEntry::new(MemoryKind::Warning, "x".to_string(), "src/other.rs".to_string(), 1),
    ];
    let result = generate_module_memory(&module, &memory);
    let expected = "# Memory\n\n\
[← Back to MODULE](MODULE.md) | [← Back to INDEX](../../INDEX.md)\n\n\
## Summary\n\n\
| High 🔴 | Medium 🟡 | Low 🟢 |\n| 1 | 0 | 1 |\n\n\
## 🔴 High Priority\n\n\
### `WARNING` (src/w/mod.rs:10)\n\n> w\n\n\
## 🟢 Low Priority\n\n\
### `NOTE` (src/w/mod.rs:2)\n\n> n\n\n";
    assert_eq!(result, expected);
}

#[test]
fn test_generate_module_imports_empty() {
    let module = make_module("src/isolated", vec!["src/isolated/mod.rs".to_string()]);
    let graph = FileGraph::new();

    let result = generate_module_imports(&module, &graph);

    assert!(result.contains("No import relationships"));
}

#[test]
fn module_imports_is_exact() {
    let module = make_module("src/m", vec!["src/m/a.rs".to_string(), "src/m/util.rs".to_string()]);
    let mut graph = FileGraph::new();
    graph.add_file("src/m/a.rs", vec!["util".to_string(), "zlib/core".to_string(), "serde".to_string()]);
    graph.add_file("src/m/util.rs", vec!["serde".to_string()]);
    graph.add_file("src/x/user.rs", vec!["src/m/a.rs".to_string()]);
    graph.add_file("src/m/inner.rs", vec!["src/m/a.rs".to_string()]);
    let result = generate_module_imports(&module, &graph);
    let expected = "# Imports\n\n\
[← Back to MODULE](MODULE.md) | [← Back to INDEX](../../INDEX.md)\n\n\
## Dependency Graph\n\n\
```mermaid\ngraph TD\n\
\x20   src_m[src-m] --> serde[serde]\n\
\x20   src_m[src-m] --> zlib[zlib]\n\
\x20   m[m] --> src_m[src-m]\n\
\x20   x[x] --> src_m[src-m]\n\
```\n\n\
## Internal Dependencies\n\n\
Dependencies within this module:\n\n\
- `util`\n\n\
## External Dependencies\n\n\
Dependencies from other modules:\n\n\
- `serde`\n\
- `zlib/core`\n\n\
## Consumers\n\n\
Files from other modules that import from this module:\n\n\
- `src/m/inner.rs`\n\
- `src/x/user.rs`\n\n";
    assert_eq!(result, expected);
}

#[test]
fn mermaid_ids_and_module_names() {
    assert_eq!(sanitize_mermaid_id("src-cli/a.b"), "src_cli_a_b");
    assert_eq!(sanitize_mermaid_id("größe1"), "größe1");
    assert_eq!(path_to_module_name("src/analyze/graph.rs"), "analyze");
    assert_eq!(path_to_module_name("lib.rs"), "lib.rs");
    assert_eq!(path_to_module_name("a/b"), "a");
    assert_eq!(path_to_module_name("/b"), "");
}

#[test]
fn module_content_puts_short_sections_inline() {
    let module = make_module("src/m", vec!["src/m/a.rs".to_string()]);
    let files = vec![make_file("src/m/a.rs", 700), make_file("src/n/b.rs", 5)];
    let symbols = vec![(make_file("src/m/a.rs", 700), vec![make_symbol("f", Visibility::Public)])];
    let memory = vec![MemoryEntry::new(MemoryKind::Todo, "t".to_string(), "src/m/a.rs".to_string(), 1)];
    let graph = FileGraph::new();
    let content = generate_module_content(&module, &files, &symbols, &memory, &graph);
    assert!(content.outline.is_empty());
    assert!(content.memory.is_empty());
    assert!(content.imports.is_empty());
    assert!(content.module_md.contains("| `src/m/a.rs` | 700 | 📊 |"));
    assert!(!content.module_md.contains("src/n/b.rs"));
    assert!(!content.module_md.contains("## Documentation"));
    assert!(content.module_md.contains("---\n\nSymbol maps for 1 large files in this module."));
    assert!(content.module_md.contains("## 🟡 Medium Priority"));
    assert!(content.module_md.ends_with("---\n\n_No import relationships detected._"));
}

#[test]
fn module_content_puts_long_sections_in_files() {
    let module = make_module("src/m", vec!["src/m/a.rs".to_string()]);
    let files = vec![make_file("src/m/a.rs", 700)];
    let many: Vec<Symbol> = (0..40).map(|i| make_symbol(&format!("function_{}", i), Visibility::Public)).collect();
    let symbols = vec![(make_file("src/m/a.rs", 700), many)];
    let content = generate_module_content(&module, &files, &symbols, &[], &FileGraph::new());
    assert!(content.outline.len() >= 500);
    assert!(content.outline.starts_with("# Outline\n\n"));
    assert!(content.module_md.contains("- [outline.md](outline.md) - Symbol maps for large files\n"));
    assert!(!content.module_md.contains("function_1"));
}

#[test]
fn outline_of_no_files() {
    assert_eq!(generate_outline(&[]), "# Outline\n\nNo large files found in this repository.");
}

#[test]
fn outline_is_exact() {
    let mut private = make_symbol("hidden", Visibility::Private);
    private.line_range = LineRange { start: 20, end: 30 };
    let mut class = Symbol::new(SymbolKind::Class, "Widget".to_string(), 40, Visibility::Public);
    class.line_range = LineRange { start: 40, end: 90 };
    let files = vec![
        (make_file("src/Big.File.rs", 1200), vec![make_symbol("run", Visibility::Public), private, class]),
        (make_file("src/empty.rs", 600), vec![]),
    ];
    let result = generate_outline(&files);
    let expected = "# Code Outline\n\n\
This file contains symbol maps for large files in the codebase.\n\n\
## Table of Contents\n\n\
- [src/Big.File.rs](#src-big-file-rs) (1200 lines, 3 symbols)\n\
- [src/empty.rs](#src-empty-rs) (600 lines, 0 symbols)\n\
\n---\n\n\
## src/Big.File.rs (1200 lines)\n\n\
| Line | Kind | Name | Visibility |\n\
| ---- | ---- | ---- | ---------- |\n\
| 1 | fn | run | pub |\n\
| 20 | fn | hidden | (private) |\n\
| 40 | class | Widget | pub |\n\n\
### Key Entry Points\n\n\
- `fn run()` (L1)\n\
- `Widget` (L40)\n\n\
---\n\n\
## src/empty.rs (600 lines)\n\n\
_No symbols extracted._\n\n\
---\n\n";
    assert_eq!(result, expected);
}

#[test]
fn outline_lists_at_most_five_entries() {
    let symbols: Vec<Symbol> = (0..8).map(|i| make_symbol(&format!("f{}", i), Visibility::Public)).collect();
    let result = generate_outline(&[(make_file("a.rs", 501), symbols)]);
    assert!(result.contains("- `fn f4()` (L1)\n\n---"));
    assert!(!result.contains("- `fn f5()`"));
}
