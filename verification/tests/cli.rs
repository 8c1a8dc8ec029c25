use agentmap::cli::hooks::{
    plan_config_removal, plan_install, plan_script_removal, skip_first_line, trim_text,
    HookRemoval, HookSigns, HookWrite,
};
use agentmap::cli::{
    detect_hook_manager, generate_template, leading_languages_of, plan_template_write, Args,
    HookManager, InitOptions, TemplateChoice, TemplateWrite,
};
use agentmap::config::Config;
use agentmap::emit::json::{critical_entries, hub_entries, large_file_entries};
use agentmap::generate::outline::format_symbols_as_outline;
use agentmap::mcp::module_document_of;
use agentmap::scan::git::parse_diff;
use agentmap::scan::walker::{count_lines_and_check_minified, is_binary_file};
use agentmap::scan::DiffStatus;
use agentmap::telemetry::{
    count_bytes_estimate, summarize_all_sessions, summarize_session, TelemetryStorage, ToolEvent,
};
use agentmap::types::{FileEntry, Language, Symbol, SymbolKind, Visibility};

#[test]
fn verbosity_counts_flags() {
    let mut args = Args::new();
    assert_eq!(args.verbosity(), 1);
    args.verbose = 2;
    assert_eq!(args.verbosity(), 3);
    args.verbose = 255;
    assert_eq!(args.verbosity(), 255);
    args.quiet = true;
    assert_eq!(args.verbosity(), 0);
}

#[test]
fn remote_paths_are_told_by_their_start() {
    let mut args = Args::new();
    assert!(!args.is_remote());
    for path in ["https://example.com/x", "github.com/a/b", "gitlab.com/a/b", "git@host:a/b"] {
        args.path = path.to_string();
        assert!(args.is_remote());
    }
    args.path = "/home/github.com".to_string();
    assert!(!args.is_remote());
}

#[test]
fn arguments_are_validated() {
    let mut args = Args::new();
    args.path = "some/dir".to_string();
    assert_eq!(args.validate(true, true), Ok(()));
    assert_eq!(args.validate(false, false), Err("Path does not exist: some/dir".to_string()));
    assert_eq!(args.validate(true, false), Err("Path is not a directory: some/dir".to_string()));
    args.threshold = 0;
    assert_eq!(args.validate(true, true), Err("Threshold must be greater than 0".to_string()));
    assert_eq!(args.validate(false, true), Err("Path does not exist: some/dir".to_string()));
    args.path = "https://github.com/a/b".to_string();
    assert_eq!(args.validate(false, false), Err("Threshold must be greater than 0".to_string()));
    args.threshold = 1;
    assert_eq!(args.validate(false, false), Ok(()));
}

#[test]
fn settings_of_the_file_stand_where_arguments_have_defaults() {
    let mut cfg = Config::new();
    cfg.output = Some(".docs".to_string());
    cfg.threshold = Some(300);
    cfg.complex_threshold = Some(700);
    cfg.module_depth = Some(5);
    cfg.depth = Some(4);
    cfg.ignore = vec!["test/".to_string()];
    cfg.lang = vec!["rust".to_string()];
    cfg.no_gitignore = Some(true);

    let merged = Args::new().with_config(Some(cfg.clone()));
    assert_eq!(merged.output, ".docs");
    assert_eq!(merged.threshold, 300);
    assert_eq!(merged.complex_threshold, 700);
    assert_eq!(merged.module_depth, 5);
    assert_eq!(merged.depth, 4);
    assert_eq!(merged.ignore, vec!["test/".to_string()]);
    assert_eq!(merged.lang, vec!["rust".to_string()]);
    assert!(merged.no_gitignore);

    let mut given = Args::new();
    given.output = "out".to_string();
    given.threshold = 10;
    given.complex_threshold = 20;
    given.module_depth = 1;
    given.depth = 2;
    given.ignore = vec!["x".to_string()];
    given.lang = vec!["go".to_string()];
    let kept = given.with_config(Some(cfg));
    assert_eq!(kept.output, "out");
    assert_eq!(kept.threshold, 10);
    assert_eq!(kept.complex_threshold, 20);
    assert_eq!(kept.module_depth, 1);
    assert_eq!(kept.depth, 2);
    assert_eq!(kept.ignore, vec!["x".to_string()]);
    assert_eq!(kept.lang, vec!["go".to_string()]);
    assert!(kept.no_gitignore);

    let untouched = Args::new().with_config(None);
    assert_eq!(untouched.output, ".agentlens");
    assert_eq!(untouched.threshold, 500);
    let mut off = Config::new();
    off.no_gitignore = Some(false);
    assert!(!Args::new().with_config(Some(off)).no_gitignore);
}

#[test]
fn default_configuration_is_commented_out() {
    let text = Config::generate_default();
    assert!(text.starts_with("# agentlens configuration\n"));
    assert!(text.contains("# threshold = 500\n"));
    assert!(text.ends_with("# debounce_ms = 300\n"));
    assert!(text.lines().all(|l| l.is_empty() || l.starts_with('#')));
}

#[test]
fn hook_manager_is_detected_and_selected() {
    let signs = |husky_dir, lefthook_file, pre_commit_file, package_json: Option<&str>| HookSigns {
        husky_dir,
        lefthook_file,
        pre_commit_file,
        package_json: package_json.map(|s| s.to_string()),
    };
    assert_eq!(HookManager::detect(&signs(false, false, false, None)), HookManager::Native);
    assert_eq!(HookManager::detect(&signs(true, true, true, None)), HookManager::Husky);
    assert_eq!(HookManager::detect(&signs(false, true, true, None)), HookManager::Lefthook);
    assert_eq!(HookManager::detect(&signs(false, false, true, None)), HookManager::PreCommit);
    assert_eq!(
        HookManager::detect(&signs(false, false, false, Some("{\"devDependencies\":{\"husky\":\"9\"}}"))),
        HookManager::Husky
    );
    assert_eq!(
        HookManager::detect(&signs(false, false, false, Some("{\"lefthook\": {}}"))),
        HookManager::Lefthook
    );
    assert_eq!(
        HookManager::detect(&signs(false, false, false, Some("{\"name\":\"husky-free\"}"))),
        HookManager::Native
    );
    assert_eq!(HookManager::select(true, true, true, true, HookManager::Husky), HookManager::Native);
    assert_eq!(HookManager::select(false, true, true, true, HookManager::Native), HookManager::Husky);
    assert_eq!(HookManager::select(false, false, true, true, HookManager::Native), HookManager::Lefthook);
    assert_eq!(HookManager::select(false, false, false, true, HookManager::Native), HookManager::PreCommit);
    assert_eq!(HookManager::select(false, false, false, false, HookManager::Lefthook), HookManager::Lefthook);
    assert_eq!(HookManager::PreCommit.as_str(), "pre-commit");
    assert_eq!(HookManager::Native.as_str(), "native git hooks");
}

fn signs_of(husky_dir: bool, lefthook_file: bool, pre_commit_file: bool) -> HookSigns {
    HookSigns { husky_dir, lefthook_file, pre_commit_file, package_json: None }
}

#[test]
fn test_detect_native() {
    assert_eq!(detect_hook_manager(&signs_of(false, false, false)), HookManager::Native);
}

#[test]
fn test_detect_husky() {
    assert_eq!(detect_hook_manager(&signs_of(true, false, false)), HookManager::Husky);
}

#[test]
fn test_detect_lefthook() {
    assert_eq!(detect_hook_manager(&signs_of(false, true, false)), HookManager::Lefthook);
}

#[test]
fn test_detect_pre_commit() {
    assert_eq!(detect_hook_manager(&signs_of(false, false, true)), HookManager::PreCommit);
}

fn written(w: HookWrite) -> Option<String> {
    match w {
        HookWrite::Skip => None,
        HookWrite::Write(s) => Some(s),
    }
}

#[test]
fn hooks_are_installed_beside_what_is_there() {
    assert_eq!(written(plan_install(None, "fresh", "\n--\n", "add")), Some("fresh".to_string()));
    assert_eq!(
        written(plan_install(Some("#!/bin/sh\necho hi\n\n"), "fresh", "\n\n# --- m ---\n", "add")),
        Some("#!/bin/sh\necho hi\n\n# --- m ---\nadd".to_string())
    );
    assert_eq!(written(plan_install(Some("run agentlens --quiet"), "fresh", "\n", "add")), None);
    assert_eq!(written(plan_install(Some(""), "fresh", "|", "add")), Some("|add".to_string()));
    assert_eq!(trim_text("  x y \n"), "x y");
    assert_eq!(skip_first_line("#!/bin/sh\n\nif a\r\nb\n"), "\nif a\nb");
    assert_eq!(skip_first_line("one"), "");
    assert_eq!(skip_first_line(""), "");
}

fn removal(r: HookRemoval) -> (&'static str, String) {
    match r {
        HookRemoval::Keep => ("keep", String::new()),
        HookRemoval::Delete => ("delete", String::new()),
        HookRemoval::Rewrite(s) => ("rewrite", s),
    }
}

#[test]
fn hooks_are_removed_up_to_their_marker() {
    let marker = "# --- agentlens hook ---";
    assert_eq!(removal(plan_script_removal("#!/bin/sh\necho hi\n", marker)).0, "keep");
    assert_eq!(removal(plan_script_removal("#!/bin/sh\nagentlens --quiet\n", marker)).0, "delete");
    assert_eq!(
        removal(plan_script_removal("#!/bin/sh\n\n# --- agentlens hook ---\nagentlens\n", marker)).0,
        "delete"
    );
    assert_eq!(
        removal(plan_script_removal("# --- agentlens hook ---\nagentlens\n", marker)).0,
        "delete"
    );
    assert_eq!(
        removal(plan_script_removal("#!/bin/sh\nlint\n\n# --- agentlens hook ---\nagentlens\n", marker)),
        ("rewrite", "#!/bin/sh\nlint".to_string())
    );
    let marker = "# --- agentlens hooks ---";
    assert_eq!(removal(plan_config_removal("pre-commit:\n  x: y\n", marker)).0, "keep");
    assert_eq!(
        removal(plan_config_removal("a: b\n\n# --- agentlens hooks ---\npre-commit:\n", marker)),
        ("rewrite", "a: b\n".to_string())
    );
    assert_eq!(
        removal(plan_config_removal("# --- agentlens hooks ---\n", marker)),
        ("rewrite", "\n".to_string())
    );
}

#[test]
fn init_options_and_template_choices() {
    let mut options = InitOptions::new();
    assert!(options.is_empty());
    options.templates.push(TemplateChoice::Cursor);
    assert!(!options.is_empty());
    let mut options = InitOptions::new();
    options.install_hooks = true;
    assert!(!options.is_empty());
    assert_eq!(TemplateChoice::Cursor.as_template_arg(), "cursor");
    assert_eq!(TemplateChoice::OpenCode.as_template_arg(), "opencode");
}

#[test]
fn diff_reports_are_parsed() {
    let numstat = "3\t1\tsrc/a.rs\n-\t-\timg.png\n12\t0\tsrc/new.rs\n5\t5\tsrc/to.rs\nbroken line\n+7\t99999999999999999999999\tsrc/odd.rs\n";
    let name_status = "M\tsrc/a.rs\nA\tsrc/new.rs\nD\tsrc/gone.rs\nR100\tsrc/from.rs\tsrc/to.rs\nM\timg.png\nX\tsrc/odd.rs\nR\tonly.rs\n\nalone\n";
    let stats = parse_diff(numstat, name_status);
    let got: Vec<(&str, DiffStatus, usize, usize)> =
        stats.iter().map(|d| (d.path.as_str(), d.status, d.additions, d.deletions)).collect();
    assert_eq!(
        got,
        vec![
            ("src/a.rs", DiffStatus::Modified, 3, 1),
            ("src/new.rs", DiffStatus::Added, 12, 0),
            ("src/gone.rs", DiffStatus::Deleted, 0, 0),
            ("src/to.rs", DiffStatus::Renamed, 5, 5),
            ("img.png", DiffStatus::Modified, 0, 0),
            ("src/odd.rs", DiffStatus::Modified, 7, 0),
            ("only.rs", DiffStatus::Renamed, 0, 0),
        ]
    );
    assert!(parse_diff("", "").is_empty());
}

#[test]
fn binary_and_minified_files_are_told() {
    assert!(is_binary_file(b"ab\0cd"));
    assert!(!is_binary_file(b"abcd"));
    assert!(!is_binary_file(b""));
    let mut late = vec![b'a'; 8192];
    late.push(0);
    assert!(!is_binary_file(&late));
    late[8191] = 0;
    assert!(is_binary_file(&late));

    assert_eq!(count_lines_and_check_minified(b"a\nbb\n\nccc"), (4, false));
    assert_eq!(count_lines_and_check_minified(b""), (0, false));
    let long = vec![b'x'; 201];
    assert_eq!(count_lines_and_check_minified(&long), (1, true));
    let exact = vec![b'x'; 200];
    assert_eq!(count_lines_and_check_minified(&exact), (1, false));
    let mut mixed = vec![b'x'; 402];
    mixed.extend_from_slice(b"\n\n\ny\n");
    assert_eq!(count_lines_and_check_minified(&mixed), (4, true));
}

fn event(session: &str, tool: &str, tokens_in: usize, tokens_out: usize, bytes: usize) -> ToolEvent {
    ToolEvent {
        session_id: session.to_string(),
        tool_name: tool.to_string(),
        tokens_in,
        tokens_out,
        bytes_out: bytes,
    }
}

#[test]
fn sessions_are_summarized() {
    let events = vec![
        event("s1", "outline", 1, 10, 100),
        event("s2", "module", 2, 20, 200),
        event("s1", "module", 3, 30, 300),
        event("s1", "module", 4, 40, 400),
        event("s1", "check", 5, usize::MAX, 500),
    ];
    let s1 = summarize_session(&events, "s1");
    assert_eq!(s1.session_id, "s1");
    assert_eq!(s1.total_calls, 4);
    assert_eq!(s1.total_tokens_in, 13);
    assert_eq!(s1.total_tokens_out, usize::MAX);
    assert_eq!(s1.total_bytes, 1300);
    let tools: Vec<(&str, usize, usize)> = s1
        .tools_used
        .iter()
        .map(|t| (t.tool_name.as_str(), t.call_count, t.total_tokens_out))
        .collect();
    assert_eq!(tools, vec![("module", 2, 70), ("outline", 1, 10), ("check", 1, usize::MAX)]);
    let none = summarize_session(&events, "s3");
    assert_eq!(none.total_calls, 0);
    assert!(none.tools_used.is_empty());
    let all = summarize_all_sessions(&events);
    assert_eq!(all.len(), 2);
    assert_eq!(all[0].session_id, "s1");
    assert_eq!(all[0].total_calls, 4);
    assert_eq!(all[1].session_id, "s2");
    assert_eq!(all[1].total_tokens_out, 20);
}

#[test]
fn telemetry_storage_and_estimates() {
    let storage = TelemetryStorage::new("out/telemetry".to_string());
    assert_eq!(storage.dir(), "out/telemetry");
    assert_eq!(storage.events_file_path(), "out/telemetry/events.jsonl");
    assert_eq!(count_bytes_estimate(""), 0);
    assert_eq!(count_bytes_estimate("abc"), 0);
    assert_eq!(count_bytes_estimate("abcdefgh9"), 2);
    assert_eq!(count_bytes_estimate("ééé"), 1);
}

#[test]
fn report_entries_carry_the_results() {
    let file = FileEntry::new("/p/src/a.rs".to_string(), "src/a.rs".to_string(), 9, 700, 500);
    let symbols = vec![Symbol::new(SymbolKind::Function, "f".to_string(), 3, Visibility::Public)];
    let large = large_file_entries(&[(file, symbols)]);
    assert_eq!(large.len(), 1);
    assert_eq!(large[0].path, "src/a.rs");
    assert_eq!(large[0].line_count, 700);
    assert_eq!(large[0].language, "Rust");
    assert_eq!(large[0].symbols.len(), 1);
    assert_eq!(large[0].symbols[0].name, "f");
    let hubs = hub_entries(&vec![("x".to_string(), 4), ("y".to_string(), 3)]);
    assert_eq!(hubs.len(), 2);
    assert_eq!((hubs[1].path.as_str(), hubs[1].imported_by), ("y", 3));
    let critical = critical_entries(&vec![("z".to_string(), 2)]);
    assert_eq!((critical[0].path.as_str(), critical[0].high_priority_markers), ("z", 2));
}

#[test]
fn outline_of_one_file() {
    assert_eq!(format_symbols_as_outline("src/a.rs", &[]), "# src/a.rs\n\nNo symbols found.");
    let symbols = vec![
        Symbol::new(SymbolKind::Struct, "S".to_string(), 3, Visibility::Public),
        Symbol::new(SymbolKind::Method, "m".to_string(), 9, Visibility::Protected),
        Symbol::new(SymbolKind::Module, "n".to_string(), 12, Visibility::Internal),
    ];
    assert_eq!(
        format_symbols_as_outline("src/a.rs", &symbols),
        "# src/a.rs\n\n| Line | Kind | Name | Visibility |\n| ---- | ---- | ---- | ---------- |\n| 3 | struct | S | pub |\n| 9 | method | m | (protected) |\n| 12 | mod | n | (internal) |\n"
    );
}

#[test]
fn template_names_the_documents() {
    let text = generate_template(TemplateChoice::Cursor, ".agentlens");
    let expected = "# Agentmap Integration\n\n\
This project keeps a generated map of its code under `.agentlens/`.\n\n\
- Start with `.agentlens/INDEX.md`.\n\
- Each module has a directory under `.agentlens/modules/`, with `MODULE.md`, `outline.md`, `memory.md` and `imports.md`.\n\
- Read the `memory.md` of a module before changing its files.\n";
    assert_eq!(text, expected);
    let other = generate_template(TemplateChoice::OpenCode, "docs");
    assert!(other.starts_with("## Agentmap Documentation\n\nThis project"));
    assert!(other.contains("`docs/INDEX.md`"));
    assert_eq!(TemplateChoice::Cursor.filename(), ".cursorrules");
    assert_eq!(TemplateChoice::OpenCode.filename(), "AGENTS.md");
}

fn template_write(w: TemplateWrite) -> (&'static str, String) {
    match w {
        TemplateWrite::Created(t) => ("created", t),
        TemplateWrite::Appended(t) => ("appended", t),
        TemplateWrite::Skipped => ("skipped", String::new()),
    }
}

#[test]
fn template_is_created_where_there_is_no_file() {
    let (what, text) = template_write(plan_template_write(None, "# Test content"));
    assert_eq!(what, "created");
    assert_eq!(text, "# Test content");
}

#[test]
fn template_is_appended_to_a_file_without_the_section() {
    let (what, text) = template_write(plan_template_write(
        Some("# Existing rules\n\nSome content \n\n"),
        "# Agentmap Integration\n\nNew content",
    ));
    assert_eq!(what, "appended");
    assert_eq!(text, "# Existing rules\n\nSome content\n\n# Agentmap Integration\n\nNew content");
    let (what, text) = template_write(plan_template_write(Some(""), "x"));
    assert_eq!(what, "appended");
    assert_eq!(text, "\n\nx");
}

#[test]
fn template_is_skipped_where_the_section_is_there() {
    let (what, _) = template_write(plan_template_write(
        Some("# Existing\n\n# Agentmap Integration\n\nAlready here"),
        "# Agentmap Integration\n\nDuplicate",
    ));
    assert_eq!(what, "skipped");
    let (what, _) = template_write(plan_template_write(
        Some("# Project\n\n## Agentmap Documentation\n\nAlready here"),
        "## Agentmap Documentation\n\nDuplicate",
    ));
    assert_eq!(what, "skipped");
}

#[test]
fn module_document_joins_what_could_be_read() {
    assert_eq!(module_document_of(None, None, None, None), None);
    assert_eq!(module_document_of(None, Some(""), Some(""), None), None);
    assert_eq!(
        module_document_of(Some("# M"), Some("o"), Some(""), Some("i")),
        Some("# M\n\n---\n\n## outline.md\n\no\n\n## imports.md\n\ni\n\n".to_string())
    );
    assert_eq!(module_document_of(Some(""), None, None, None), Some("\n\n---\n\n".to_string()));
    assert_eq!(
        module_document_of(None, None, Some("m"), None),
        Some("## memory.md\n\nm\n\n".to_string())
    );
}

fn entry(path: &str) -> FileEntry {
    FileEntry::new(path.to_string(), path.to_string(), 10, 1, 500)
}

#[test]
fn leading_languages_are_ranked_by_their_files() {
    let none: Vec<FileEntry> = vec![];
    assert!(leading_languages_of(&none).is_empty());

    let files = vec![
        entry("a.py"),
        entry("b.rs"),
        entry("c.go"),
        entry("d.go"),
        entry("e.txt"),
        entry("f.java"),
        entry("g.py"),
        entry("h.go"),
    ];
    let leading: Vec<(Language, usize)> =
        leading_languages_of(&files).iter().map(|c| (c.language, c.files)).collect();
    assert_eq!(leading, vec![(Language::Go, 3), (Language::Python, 2), (Language::Rust, 1)]);

    let two = vec![entry("x.rb"), entry("y.c")];
    let leading: Vec<(Language, usize)> =
        leading_languages_of(&two).iter().map(|c| (c.language, c.files)).collect();
    assert_eq!(leading, vec![(Language::C, 1), (Language::Ruby, 1)]);
}
