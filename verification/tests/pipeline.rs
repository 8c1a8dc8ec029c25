use agentmap::analyze::memory::extract_memory_markers;
use agentmap::analyze::module::{
    detect_modules, detect_modules_with_depth, modules_from_paths, path_to_slug, BoundaryType,
};
use agentmap::emit::{FileStamp, Manifest};
use agentmap::runner::{
    analyze_files, assemble_output, hub_module_slugs, module_states, plan_regeneration, record_run,
};
use agentmap::types::{FileEntry, Language, MemoryKind, Priority, SymbolKind, Visibility};

fn file(path: &str, lines: usize) -> FileEntry {
    FileEntry::new(format!("/project/{}", path), path.to_string(), 100, lines, 500)
}

#[test]
fn two_file_project_yields_its_symbols() {
    let files = vec![file("src/lib.rs", 1), file("src/util.rs", 1)];
    let contents = vec![Some("pub fn foo() {}".to_string()), Some("fn helper() {}".to_string())];
    let analysis = analyze_files(&files, &contents);
    let lib = analysis.symbols.get("src/lib.rs").unwrap();
    assert_eq!(lib.len(), 1);
    assert_eq!(lib[0].name, "foo");
    assert_eq!(lib[0].kind, SymbolKind::Function);
    assert_eq!(lib[0].visibility, Visibility::Public);
    let util = analysis.symbols.get("src/util.rs").unwrap();
    assert_eq!(util.len(), 1);
    assert_eq!(util[0].name, "helper");
    assert_eq!(util[0].kind, SymbolKind::Function);
    assert_eq!(util[0].visibility, Visibility::Private);
    assert!(analysis.memory.is_empty());
    assert!(analysis.large_files.is_empty());
    assert!(analysis.graph.hub_files().is_empty());
}

#[test]
fn four_importers_make_a_hub() {
    let files = vec![file("a.py", 1), file("b.py", 1), file("c.py", 1), file("d.py", 1), file("e.py", 1)];
    let contents = vec![
        Some("import common\n".to_string()),
        Some("from common import x\n".to_string()),
        Some("import common.sub\nimport os\n".to_string()),
        Some("import common\nimport common\n".to_string()),
        None,
    ];
    let analysis = analyze_files(&files, &contents);
    assert_eq!(analysis.graph.hub_files(), vec![("common".to_string(), 4)]);
    assert!(analysis.graph.is_hub("common"));
    assert!(!analysis.graph.is_hub("os"));
    assert!(!analysis.graph.has_file("e.py"));
    assert!(analysis.symbols.get("e.py").is_none());
}

#[test]
fn unreadable_and_repeated_files_add_nothing_twice() {
    let files = vec![file("a.py", 600), file("a.py", 600), file("b.py", 1)];
    let contents = vec![Some("import x\n# TODO: one\n".to_string()), Some("import y\n".to_string())];
    let analysis = analyze_files(&files, &contents);
    assert_eq!(analysis.graph.imports_of("a.py").unwrap(), &vec!["x".to_string()]);
    assert!(analysis.graph.importers_of("y").is_none());
    assert!(!analysis.graph.has_file("b.py"));
    assert_eq!(analysis.memory.len(), 1);
    assert_eq!(analysis.large_files.len(), 2);
    assert_eq!(analysis.symbols.len(), 1);
}

#[test]
fn markers_are_found_in_comments() {
    let src = "// TODO: write tests\nfn f() {} // fixme later\n# WARNING careful\n/* NOTE: */\n// SAFETY: pointer is valid\n * Invariant: sorted\n// guarantees order\n  // RULE: totals are cents\n// POLICY! never log keys\nx(); // RULE: not at line start\n/** Deprecated: use g */\n// XXX: odd\n// Bug: wrong\n// HACK: temp\n// WARN: hot\n";
    let entries = extract_memory_markers(src, "src/a.rs");
    let got: Vec<(MemoryKind, &str, usize, Priority)> = entries
        .iter()
        .map(|e| (e.kind, e.content.as_str(), e.line_number, e.priority))
        .collect();
    assert_eq!(
        got,
        vec![
            (MemoryKind::Todo, "write tests", 1, Priority::Medium),
            (MemoryKind::Fixme, "later", 2, Priority::Medium),
            (MemoryKind::Warning, "careful", 3, Priority::High),
            (MemoryKind::Note, "*/", 4, Priority::Medium),
            (MemoryKind::Safety, "pointer is valid", 5, Priority::High),
            (MemoryKind::Invariant, "sorted", 6, Priority::High),
            (MemoryKind::Invariant, "order", 7, Priority::High),
            (MemoryKind::BusinessRule, "totals are cents", 8, Priority::High),
            (MemoryKind::BusinessRule, "never log keys", 9, Priority::High),
            (MemoryKind::Deprecated, "use g */", 11, Priority::High),
            (MemoryKind::Fixme, "odd", 12, Priority::Medium),
            (MemoryKind::Fixme, "wrong", 13, Priority::Medium),
            (MemoryKind::Hack, "temp", 14, Priority::Medium),
            (MemoryKind::Warning, "hot", 15, Priority::High),
        ]
    );
    assert!(entries.iter().all(|e| e.source_file == "src/a.rs"));
    assert!(extract_memory_markers("no markers here", "x").is_empty());
}

#[test]
fn marker_without_message_is_dropped_unless_deprecated() {
    assert!(extract_memory_markers("// TODO", "f").is_empty());
    assert!(extract_memory_markers("// SAFETY:  \n", "f").is_empty());
    let entries = extract_memory_markers("fn f() {}\n// DEPRECATED\n", "f");
    assert_eq!(entries.len(), 1);
    assert_eq!(entries[0].kind, MemoryKind::Deprecated);
    assert_eq!(entries[0].content, "Deprecated");
    assert_eq!(entries[0].line_number, 2);
    // white space after a keyword runs over the line end
    let entries = extract_memory_markers("// TODO\nnext line", "f");
    assert_eq!(entries.len(), 1);
    assert_eq!(entries[0].content, "next line");
    assert_eq!(entries[0].line_number, 1);
}

#[test]
fn markers_are_in_line_order_across_families() {
    let src = "// SAFETY: b\n// TODO: a\n// DEPRECATED: c\n// NOTE: d\n";
    let entries = extract_memory_markers(src, "f");
    let kinds: Vec<MemoryKind> = entries.iter().map(|e| e.kind).collect();
    assert_eq!(
        kinds,
        vec![MemoryKind::Safety, MemoryKind::Todo, MemoryKind::Deprecated, MemoryKind::Note]
    );
    assert_eq!(entries[3].priority, Priority::Medium);
}

#[test]
fn keyword_with_long_s_is_read_as_its_keyword() {
    let entries = extract_memory_markers("// guaranteeſ: sorted\n// ſafety: checked\n", "f");
    assert_eq!(entries.len(), 2);
    assert_eq!(entries[0].kind, MemoryKind::Invariant);
    assert_eq!(entries[0].content, "sorted");
    assert_eq!(entries[1].kind, MemoryKind::Safety);
    assert_eq!(entries[1].content, "checked");
}

#[test]
fn each_kind_starts_with_its_priority() {
    assert_eq!(MemoryKind::Todo.default_priority(), Priority::Medium);
    assert_eq!(MemoryKind::Fixme.default_priority(), Priority::Medium);
    assert_eq!(MemoryKind::Hack.default_priority(), Priority::Medium);
    assert_eq!(MemoryKind::Note.default_priority(), Priority::Medium);
    assert_eq!(MemoryKind::Warning.default_priority(), Priority::High);
    assert_eq!(MemoryKind::Safety.default_priority(), Priority::High);
    assert_eq!(MemoryKind::Invariant.default_priority(), Priority::High);
    assert_eq!(MemoryKind::BusinessRule.default_priority(), Priority::High);
    assert_eq!(MemoryKind::Deprecated.default_priority(), Priority::High);
}

#[test]
fn files_are_grouped_by_directory() {
    let paths: Vec<String> = [
        "main.rs",
        "src/lib.rs",
        "src/analyze/mod.rs",
        "src/analyze/graph.rs",
        "src/analyze/lang/deep/very/x.rs",
        "src/util.rs",
        "web/app/index.ts",
        "docs/a-b/c.py",
    ]
    .iter()
    .map(|s| s.to_string())
    .collect();
    let modules = modules_from_paths(&paths, 3);
    let got: Vec<(&str, &str, BoundaryType, Vec<&str>, Vec<&str>, Option<&str>)> = modules
        .iter()
        .map(|m| {
            (
                m.slug.as_str(),
                m.path.as_str(),
                m.boundary_type,
                m.files.iter().map(|f| f.as_str()).collect(),
                m.children.iter().map(|c| c.as_str()).collect(),
                m.entry_point.as_deref(),
            )
        })
        .collect();
    assert_eq!(
        got,
        vec![
            ("root", "", BoundaryType::Root, vec!["main.rs"], vec!["src", "web-app", "docs-a-b"], Some("main.rs")),
            ("src", "src", BoundaryType::RustModule, vec!["src/lib.rs", "src/util.rs"], vec!["src-analyze"], Some("src/lib.rs")),
            ("src-analyze", "src/analyze", BoundaryType::RustModule, vec!["src/analyze/mod.rs", "src/analyze/graph.rs"], vec!["src-analyze-lang"], Some("src/analyze/mod.rs")),
            ("src-analyze-lang", "src/analyze/lang", BoundaryType::Directory, vec!["src/analyze/lang/deep/very/x.rs"], vec![], None),
            ("web-app", "web/app", BoundaryType::NodePackage, vec!["web/app/index.ts"], vec![], Some("web/app/index.ts")),
            ("docs-a-b", "docs/a-b", BoundaryType::Directory, vec!["docs/a-b/c.py"], vec![], None),
        ]
    );
}

#[test]
fn module_depth_limits_nesting() {
    let paths: Vec<String> = ["a/b/c/d.rs", "a/x.rs", "y.rs"].iter().map(|s| s.to_string()).collect();
    let slugs = |depth| -> Vec<String> {
        modules_from_paths(&paths, depth).iter().map(|m| m.slug.clone()).collect()
    };
    assert_eq!(slugs(0), vec!["root", "a-b-c", "a"]);
    assert_eq!(slugs(1), vec!["root", "a"]);
    assert_eq!(slugs(2), vec!["root", "a-b", "a"]);
    assert_eq!(modules_from_paths(&paths, 1)[1].files, vec!["a/b/c/d.rs", "a/x.rs"]);
}

#[test]
fn every_file_is_in_exactly_one_module_and_slugs_are_unique() {
    let files = vec![
        file("src/a.rs", 1),
        file("src/b/c.rs", 1),
        file("src-b/d.rs", 1),
        file("e.rs", 1),
        file("root/f.rs", 1),
    ];
    let modules = detect_modules(&files);
    for f in &files {
        let holders = modules.iter().filter(|m| m.contains_file(&f.relative_path)).count();
        assert_eq!(holders, 1);
    }
    for (i, a) in modules.iter().enumerate() {
        for b in &modules[i + 1..] {
            assert_ne!(a.slug, b.slug);
        }
    }
    assert_eq!(modules[0].slug, "root");
    assert_eq!(modules[0].files, vec!["e.rs", "root/f.rs"]);
    let merged = modules.iter().find(|m| m.slug == "src-b").unwrap();
    assert_eq!(merged.files, vec!["src/b/c.rs", "src-b/d.rs"]);
    assert_eq!(detect_modules_with_depth(&[], 3).len(), 1);
    assert_eq!(path_to_slug("src/analyze\\x.rs"), "src-analyze-x.rs");
}

#[test]
fn states_plan_and_record_work_together() {
    let files = vec![file("src/a.rs", 1), file("src/b.rs", 1), file("c.rs", 1)];
    let modules = detect_modules(&files);
    let stamps = vec![
        FileStamp { relative_path: "src/a.rs".to_string(), mtime: Some(10) },
        FileStamp { relative_path: "src/b.rs".to_string(), mtime: Some(20) },
        FileStamp { relative_path: "c.rs".to_string(), mtime: None },
    ];
    let states = module_states(&modules, &stamps);
    assert_eq!(states.len(), 2);
    assert_eq!(states[0].0, "root");
    assert_eq!(states[0].1.file_count, 1);
    assert_eq!(states[0].1.latest_mtime, 0);
    assert_eq!(states[1].0, "src");
    assert_eq!(states[1].1.file_count, 2);
    assert_eq!(states[1].1.latest_mtime, 20);

    let mut manifest = Manifest::default();
    assert_eq!(plan_regeneration(&manifest, &states), vec!["root".to_string(), "src".to_string()]);
    record_run(&mut manifest, "v".to_string(), 1, &states);
    assert!(plan_regeneration(&manifest, &states).is_empty());

    let touched = vec![
        FileStamp { relative_path: "src/a.rs".to_string(), mtime: Some(10) },
        FileStamp { relative_path: "src/b.rs".to_string(), mtime: Some(21) },
        FileStamp { relative_path: "c.rs".to_string(), mtime: None },
    ];
    let states = module_states(&modules, &touched);
    assert_eq!(plan_regeneration(&manifest, &states), vec!["src".to_string()]);
}

#[test]
fn output_holds_documents_of_regenerated_modules_and_complex_files() {
    let files = vec![file("src/a.rs", 1200), file("src/b.rs", 3), file("c.rs", 2)];
    let contents = vec![
        Some("pub fn big() {}\n// TODO: shrink\n".to_string()),
        Some("fn small() {}\n".to_string()),
        Some("fn top() {}\n".to_string()),
    ];
    let analysis = analyze_files(&files, &contents);
    let modules = detect_modules(&files);
    let regenerate = vec!["src".to_string()];
    let output = assemble_output("# INDEX".to_string(), &modules, &regenerate, &files, &analysis, 1000);
    assert_eq!(output.index_md, "# INDEX");
    assert_eq!(output.modules.len(), 1);
    let content = output.modules.get("src").unwrap();
    assert!(content.module_md.starts_with("# Module: src\n\n"));
    assert!(content.module_md.contains("| `src/a.rs` | 1200 | 📊 |"));
    assert_eq!(output.files.len(), 1);
    let doc = output.files.get("src-a-rs").unwrap();
    assert!(doc.starts_with("# src/a.rs\n\n[← Back to Module](../modules/src/MODULE.md)"));
    assert!(doc.contains("### 🟡 `TODO` (line 2)\n\n> shrink\n\n"));
    assert_eq!(output.file_count(), 3);

    let none = assemble_output(String::new(), &modules, &Vec::new(), &files, &analysis, 1000);
    assert_eq!(none.file_count(), 1);
}

#[test]
fn hubs_are_mapped_to_their_modules() {
    let files = vec![file("src/a.rs", 1), file("lib/b.rs", 1)];
    let modules = detect_modules(&files);
    let hubs = vec![("lib/b.rs".to_string(), 5), ("serde".to_string(), 4), ("src/a.rs".to_string(), 3)];
    assert_eq!(
        hub_module_slugs(&hubs, &modules),
        vec![("lib".to_string(), 5), ("src".to_string(), 3)]
    );
}

#[test]
fn language_follows_the_extension() {
    assert_eq!(Language::from_extension("rs"), Language::Rust);
    assert_eq!(Language::from_extension("PY"), Language::Python);
    assert_eq!(Language::from_extension("mjs"), Language::JavaScript);
    assert_eq!(Language::from_extension("Tsx"), Language::TypeScript);
    assert_eq!(Language::from_extension("go"), Language::Go);
    assert_eq!(Language::from_extension("phtml"), Language::Php);
    assert_eq!(Language::from_extension("java"), Language::Java);
    assert_eq!(Language::from_extension("cs"), Language::CSharp);
    assert_eq!(Language::from_extension("c"), Language::C);
    assert_eq!(Language::from_extension("h"), Language::Cpp);
    assert_eq!(Language::from_extension("cxx"), Language::Cpp);
    assert_eq!(Language::from_extension("rb"), Language::Ruby);
    assert_eq!(Language::from_extension("dart"), Language::Dart);
    assert_eq!(Language::from_extension("swift"), Language::Swift);
    assert_eq!(Language::from_extension(""), Language::Unknown);
    assert_eq!(Language::from_extension("md"), Language::Unknown);
    assert_eq!(Language::from_extension("rss"), Language::Unknown);
}

#[test]
fn language_follows_the_shebang() {
    assert_eq!(Language::from_shebang("#!/usr/bin/env python3"), Some(Language::Python));
    assert_eq!(Language::from_shebang("#!/usr/bin/node"), Some(Language::JavaScript));
    assert_eq!(Language::from_shebang("#!/usr/bin/env deno run"), Some(Language::JavaScript));
    assert_eq!(Language::from_shebang("#!/usr/bin/bun"), Some(Language::JavaScript));
    assert_eq!(Language::from_shebang("#!/usr/bin/php"), Some(Language::Php));
    assert_eq!(Language::from_shebang("#!/bin/sh"), None);
    assert_eq!(Language::from_shebang("python"), None);
    assert_eq!(Language::from_shebang(""), None);
}

#[test]
fn file_entry_tells_extension_language_and_size() {
    let f = FileEntry::new("/p/src/Main.RS".to_string(), "src/Main.RS".to_string(), 42, 501, 500);
    assert_eq!(f.extension.as_deref(), Some("RS"));
    assert_eq!(f.language, Language::Rust);
    assert!(f.is_large);
    assert_eq!(f.size_bytes, 42);
    let g = FileEntry::new("/p/.gitignore".to_string(), ".gitignore".to_string(), 1, 500, 500);
    assert_eq!(g.extension, None);
    assert_eq!(g.language, Language::Unknown);
    assert!(!g.is_large);
    let dots = |p: &str| FileEntry::new(p.to_string(), p.to_string(), 0, 0, 0).extension;
    assert_eq!(dots("a.tar.gz").as_deref(), Some("gz"));
    assert_eq!(dots("a.b/c"), None);
    assert_eq!(dots("dir/.hidden.txt").as_deref(), Some("txt"));
    assert_eq!(dots("name.").as_deref(), Some(""));
    assert_eq!(dots(".."), None);
    assert_eq!(dots("a/.."), None);
    assert_eq!(dots(""), None);
}
