use agentmap::analyze::graph::{normalize_path, FileGraph};

#[test]
fn test_hub_detection() {
    let mut graph = FileGraph::new();

    graph.add_file("a.rs", vec!["utils".to_string()]);
    graph.add_file("b.rs", vec!["utils".to_string()]);
    graph.add_file("c.rs", vec!["utils".to_string()]);
    graph.add_file("d.rs", vec!["utils".to_string(), "config".to_string()]);

    let hubs = graph.hub_files();
    assert_eq!(hubs.len(), 1);
    assert_eq!(hubs[0].0, "utils");
    assert_eq!(hubs[0].1, 4);
}

#[test]
fn test_not_hub_with_few_importers() {
    let mut graph = FileGraph::new();

    graph.add_file("a.rs", vec!["utils".to_string()]);
    graph.add_file("b.rs", vec!["utils".to_string()]);

    let hubs = graph.hub_files();
    assert!(hubs.is_empty());
}

#[test]
fn hubs_are_ranked_by_importer_count() {
    let mut graph = FileGraph::new();
    graph.add_file("a.rs", vec!["x".to_string(), "y".to_string(), "z".to_string()]);
    graph.add_file("b.rs", vec!["x".to_string(), "y".to_string()]);
    graph.add_file("c.rs", vec!["x".to_string(), "y".to_string()]);
    graph.add_file("d.rs", vec!["y".to_string()]);
    graph.add_file("e.rs", vec!["w".to_string()]);
    let hubs = graph.hub_files();
    assert_eq!(hubs, vec![("y".to_string(), 4), ("x".to_string(), 3)]);
    assert!(graph.is_hub("x"));
    assert!(graph.is_hub("y"));
    assert!(!graph.is_hub("z"));
    assert!(!graph.is_hub("unknown"));
}

#[test]
fn hubs_with_equal_counts_keep_first_import_order() {
    let mut graph = FileGraph::new();
    graph.add_file("a.rs", vec!["late".to_string(), "early".to_string()]);
    graph.add_file("b.rs", vec!["early".to_string(), "late".to_string()]);
    graph.add_file("c.rs", vec!["early".to_string(), "late".to_string()]);
    let hubs = graph.hub_files();
    assert_eq!(hubs, vec![("late".to_string(), 3), ("early".to_string(), 3)]);
}

#[test]
fn edges_are_kept_in_both_directions() {
    let mut graph = FileGraph::new();
    graph.add_file("a.rs", vec!["x".to_string(), "y".to_string()]);
    graph.add_file("b.rs", vec!["y".to_string()]);
    assert!(graph.has_file("a.rs"));
    assert!(!graph.has_file("x"));
    assert_eq!(graph.imports_of("a.rs").unwrap(), &vec!["x".to_string(), "y".to_string()]);
    assert_eq!(graph.importers_of("y").unwrap(), &vec!["a.rs".to_string(), "b.rs".to_string()]);
    assert!(graph.importers_of("a.rs").is_none());
}

#[test]
fn relative_import_resolves_against_the_directory() {
    let graph = FileGraph::new();
    assert_eq!(graph.resolve_import("src/a/b.ext", "./c"), Some("src/a/c".to_string()));
    assert_eq!(graph.resolve_import("src/a/b.ext", "../c"), Some("src/a/../c".to_string()));
    assert_eq!(graph.resolve_import("b.ext", "./c"), Some("c".to_string()));
    assert_eq!(graph.resolve_import("src\\a/b.ext", "./x//y"), Some("src/a/x/y".to_string()));
}

#[test]
fn bare_import_is_a_sibling() {
    let graph = FileGraph::new();
    assert_eq!(graph.resolve_import("src/a/b.ext", "utils"), Some("src/a/utils".to_string()));
    assert_eq!(graph.resolve_import("b.ext", "utils"), Some("utils".to_string()));
}

#[test]
fn other_imports_stay_as_they_are() {
    let graph = FileGraph::new();
    assert_eq!(graph.resolve_import("src/a/b.ext", "/abs/path"), Some("/abs/path".to_string()));
    assert_eq!(graph.resolve_import("src/a/b.ext", "pkg/sub"), Some("pkg/sub".to_string()));
    assert_eq!(graph.resolve_import("src/a/b.ext", "lodash.get"), Some("lodash.get".to_string()));
}

#[test]
fn file_without_directory_resolves_nothing() {
    let graph = FileGraph::new();
    assert_eq!(graph.resolve_import("", "./c"), None);
    assert_eq!(graph.resolve_import("/", "./c"), None);
}

#[test]
fn paths_are_normalized() {
    assert_eq!(normalize_path("a\\b\\c"), "a/b/c");
    assert_eq!(normalize_path("a///b//c"), "a/b/c");
    assert_eq!(normalize_path("././a/./b"), "a/./b");
    assert_eq!(normalize_path(".//a"), "a");
    assert_eq!(normalize_path(""), "");
}
