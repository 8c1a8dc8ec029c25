use agentmap::emit::{has_legacy_structure, slug_to_dir_name, HierarchicalOutput, ModuleContent};
use agentmap::scan::{is_remote_url, normalize_git_url, should_include_file, DiffStatus};

#[test]
fn test_diff_status_as_str() {
    assert_eq!(DiffStatus::Added.as_str(), "new");
    assert_eq!(DiffStatus::Modified.as_str(), "modified");
    assert_eq!(DiffStatus::Deleted.as_str(), "deleted");
}

#[test]
fn diff_status_from_the_status_field() {
    assert_eq!(DiffStatus::Renamed.as_str(), "renamed");
    assert_eq!(DiffStatus::from_field("A"), DiffStatus::Added);
    assert_eq!(DiffStatus::from_field("M"), DiffStatus::Modified);
    assert_eq!(DiffStatus::from_field("D"), DiffStatus::Deleted);
    assert_eq!(DiffStatus::from_field("R100"), DiffStatus::Renamed);
    assert_eq!(DiffStatus::from_field("T"), DiffStatus::Modified);
    assert_eq!(DiffStatus::from_field(""), DiffStatus::Modified);
}

#[test]
fn test_is_remote_url() {
    assert!(is_remote_url("https://github.com/user/repo"));
    assert!(is_remote_url("github.com/user/repo"));
    assert!(is_remote_url("https://gitlab.com/user/repo"));
    assert!(!is_remote_url("."));
    assert!(!is_remote_url("/path/to/local"));
}

#[test]
fn remote_url_with_ssh_user() {
    assert!(is_remote_url("git@github.com:user/repo.git"));
    assert!(is_remote_url("git@gitlab.com:user/repo.git"));
    assert!(is_remote_url("gitlab.com/user/repo"));
    assert!(!is_remote_url("https://example.com/user/repo"));
    assert!(!is_remote_url(""));
}

#[test]
fn test_normalize_git_url() {
    assert_eq!(
        normalize_git_url("github.com/user/repo"),
        "https://github.com/user/repo.git"
    );
    assert_eq!(
        normalize_git_url("https://github.com/user/repo"),
        "https://github.com/user/repo.git"
    );
    assert_eq!(
        normalize_git_url("https://github.com/user/repo.git"),
        "https://github.com/user/repo.git"
    );
}

#[test]
fn normalize_git_url_edge_cases() {
    assert_eq!(normalize_git_url("gitlab.com/u/r.git"), "https://gitlab.com/u/r.git");
    assert_eq!(normalize_git_url(""), ".git");
    assert_eq!(normalize_git_url("git"), "git.git");
}

#[test]
fn files_are_included_by_extension_and_language() {
    assert!(should_include_file("src/main.rs", &[]));
    assert!(should_include_file("a/b/c.PY", &[]));
    assert!(!should_include_file("README.md", &[]));
    assert!(!should_include_file("Makefile", &[]));
    assert!(!should_include_file(".gitignore", &[]));
    let langs = vec!["Rust".to_string(), "typescript".to_string()];
    assert!(should_include_file("src/main.rs", &langs));
    assert!(should_include_file("web/app.tsx", &langs));
    assert!(!should_include_file("web/app.js", &langs));
    assert!(!should_include_file("tool.py", &langs));
}

#[test]
fn test_hierarchical_output_file_count() {
    let mut output = HierarchicalOutput::new("# INDEX".to_string());

    output.add_module(
        "src-analyze".to_string(),
        ModuleContent {
            module_md: "# Module".to_string(),
            outline: "# Outline".to_string(),
            memory: String::new(),
            imports: "# Imports".to_string(),
        },
    );

    // 1 (INDEX) + 3 (non-empty module files)
    assert_eq!(output.file_count(), 4);
}

#[test]
fn file_count_counts_file_documents_and_replaced_modules_once() {
    let mut output = HierarchicalOutput::new(String::new());
    assert_eq!(output.file_count(), 1);
    output.add_file("src-main-rs".to_string(), "# doc".to_string());
    output.add_module("m".to_string(), ModuleContent::new());
    assert_eq!(output.file_count(), 2);
    output.add_module(
        "m".to_string(),
        ModuleContent {
            module_md: "a".to_string(),
            outline: "b".to_string(),
            memory: "c".to_string(),
            imports: "d".to_string(),
        },
    );
    assert_eq!(output.file_count(), 6);
}

#[test]
fn test_slug_to_dir_name() {
    assert_eq!(slug_to_dir_name("src-analyze"), "src-analyze");
    assert_eq!(slug_to_dir_name("root"), "root");
}

#[test]
fn legacy_structure_has_agents_and_no_index() {
    assert!(has_legacy_structure(true, false));
    assert!(!has_legacy_structure(true, true));
    assert!(!has_legacy_structure(false, false));
    assert!(!has_legacy_structure(false, true));
}
