use agentmap::emit::manifest::{hash_path, FNV_OFFSET};
use agentmap::emit::{calculate_module_state, FileStamp, Manifest, ModuleState};
use agentmap::runner::{check_staleness, plan_regeneration, record_run};

fn stamp(path: &str, mtime: Option<u64>) -> FileStamp {
    FileStamp { relative_path: path.to_string(), mtime }
}

#[test]
fn test_needs_regeneration_new_module() {
    let manifest = Manifest::default();
    let state = ModuleState {
        latest_mtime: 1000,
        file_count: 5,
        files_hash: 12345,
    };
    assert!(manifest.needs_regeneration("new-module", &state));
}

#[test]
fn test_needs_regeneration_unchanged() {
    let mut manifest = Manifest::default();
    let state = ModuleState {
        latest_mtime: 1000,
        file_count: 5,
        files_hash: 12345,
    };
    manifest.update_module("module".to_string(), state.clone());
    assert!(!manifest.needs_regeneration("module", &state));
}

#[test]
fn test_needs_regeneration_mtime_changed() {
    let mut manifest = Manifest::default();
    let old_state = ModuleState {
        latest_mtime: 1000,
        file_count: 5,
        files_hash: 12345,
    };
    manifest.update_module("module".to_string(), old_state);

    let new_state = ModuleState {
        latest_mtime: 2000,
        file_count: 5,
        files_hash: 12345,
    };
    assert!(manifest.needs_regeneration("module", &new_state));
}

#[test]
fn test_needs_regeneration_file_count_changed() {
    let mut manifest = Manifest::default();
    let old_state = ModuleState {
        latest_mtime: 1000,
        file_count: 5,
        files_hash: 12345,
    };
    manifest.update_module("module".to_string(), old_state);

    let new_state = ModuleState {
        latest_mtime: 1000,
        file_count: 6,
        files_hash: 12345,
    };
    assert!(manifest.needs_regeneration("module", &new_state));
}

#[test]
fn test_prune_modules() {
    let mut manifest = Manifest::default();
    manifest.update_module(
        "a".to_string(),
        ModuleState {
            latest_mtime: 0,
            file_count: 0,
            files_hash: 0,
        },
    );
    manifest.update_module(
        "b".to_string(),
        ModuleState {
            latest_mtime: 0,
            file_count: 0,
            files_hash: 0,
        },
    );
    manifest.update_module(
        "c".to_string(),
        ModuleState {
            latest_mtime: 0,
            file_count: 0,
            files_hash: 0,
        },
    );

    manifest.prune_modules(&["a".to_string(), "c".to_string()]);

    assert!(manifest.modules.contains_key("a"));
    assert!(!manifest.modules.contains_key("b"));
    assert!(manifest.modules.contains_key("c"));
}

#[test]
fn needs_regeneration_when_hash_changed() {
    let mut manifest = Manifest::default();
    let old = ModuleState { latest_mtime: 1, file_count: 2, files_hash: 3 };
    manifest.update_module("m".to_string(), old);
    let new = ModuleState { latest_mtime: 1, file_count: 2, files_hash: 4 };
    assert!(manifest.needs_regeneration("m", &new));
}

#[test]
fn hash_of_a_path_is_fnv1a() {
    assert_eq!(hash_path(""), FNV_OFFSET);
    assert_eq!(hash_path("a"), 0xaf63dc4c8601ec8c);
    assert_eq!(hash_path("foobar"), 0x85944171f73967e8);
}

#[test]
fn state_of_no_files() {
    let state = calculate_module_state(&[]);
    assert_eq!(state, ModuleState { latest_mtime: 0, file_count: 0, files_hash: 0 });
}

#[test]
fn state_takes_latest_mtime_count_and_hash() {
    let files = vec![stamp("a", Some(10)), stamp("foobar", Some(30)), stamp("x", None)];
    let state = calculate_module_state(&files);
    assert_eq!(state.latest_mtime, 30);
    assert_eq!(state.file_count, 3);
    let expected = 0xaf63dc4c8601ec8cu64
        .wrapping_add(0x85944171f73967e8)
        .wrapping_add(hash_path("x"));
    assert_eq!(state.files_hash, expected);
}

#[test]
fn state_does_not_depend_on_the_order_of_files() {
    let a = vec![stamp("src/a.rs", Some(5)), stamp("src/b.rs", Some(9)), stamp("src/c.rs", None)];
    let b = vec![stamp("src/c.rs", None), stamp("src/a.rs", Some(5)), stamp("src/b.rs", Some(9))];
    assert_eq!(calculate_module_state(&a), calculate_module_state(&b));
}

#[test]
fn state_changes_when_a_file_is_renamed_or_touched() {
    let before = vec![stamp("src/a.rs", Some(5)), stamp("src/b.rs", Some(9))];
    let renamed = vec![stamp("src/a.rs", Some(5)), stamp("src/z.rs", Some(9))];
    let touched = vec![stamp("src/a.rs", Some(12)), stamp("src/b.rs", Some(9))];
    let s = calculate_module_state(&before);
    assert_ne!(s.files_hash, calculate_module_state(&renamed).files_hash);
    assert_eq!(calculate_module_state(&touched).latest_mtime, 12);
    let mut manifest = Manifest::default();
    manifest.update_module("src".to_string(), s);
    assert!(!manifest.needs_regeneration("src", &calculate_module_state(&before)));
    assert!(manifest.needs_regeneration("src", &calculate_module_state(&touched)));
    assert!(manifest.needs_regeneration("src", &calculate_module_state(&renamed)));
}

#[test]
fn second_run_without_changes_regenerates_nothing() {
    let states = vec![
        ("root".to_string(), ModuleState { latest_mtime: 1, file_count: 1, files_hash: 7 }),
        ("src".to_string(), ModuleState { latest_mtime: 2, file_count: 3, files_hash: 9 }),
    ];
    let mut manifest = Manifest::default();
    manifest.update_module(
        "gone".to_string(),
        ModuleState { latest_mtime: 0, file_count: 0, files_hash: 0 },
    );
    assert_eq!(plan_regeneration(&manifest, &states), vec!["root".to_string(), "src".to_string()]);
    record_run(&mut manifest, "1.2.3".to_string(), 42, &states);
    assert_eq!(manifest.version, "1.2.3");
    assert_eq!(manifest.generated_at, 42);
    assert_eq!(manifest.modules.len(), 2);
    assert!(!manifest.modules.contains_key("gone"));
    assert!(plan_regeneration(&manifest, &states).is_empty());
}

#[test]
fn check_tells_changed_new_and_removed_modules() {
    let mut manifest = Manifest::default();
    manifest.update_module("same".to_string(), ModuleState { latest_mtime: 1, file_count: 1, files_hash: 1 });
    manifest.update_module("changed".to_string(), ModuleState { latest_mtime: 1, file_count: 1, files_hash: 1 });
    manifest.update_module("removed".to_string(), ModuleState { latest_mtime: 1, file_count: 1, files_hash: 1 });
    let states = vec![
        ("same".to_string(), ModuleState { latest_mtime: 1, file_count: 1, files_hash: 1 }),
        ("changed".to_string(), ModuleState { latest_mtime: 2, file_count: 1, files_hash: 1 }),
        ("new".to_string(), ModuleState { latest_mtime: 1, file_count: 1, files_hash: 1 }),
    ];
    let result = check_staleness(&manifest, &states);
    assert!(result.is_stale);
    assert_eq!(result.stale_modules, vec!["changed".to_string()]);
    assert_eq!(result.new_modules, vec!["new".to_string()]);
    assert_eq!(result.removed_modules, vec!["removed".to_string()]);

    let fresh = vec![
        ("same".to_string(), ModuleState { latest_mtime: 1, file_count: 1, files_hash: 1 }),
        ("changed".to_string(), ModuleState { latest_mtime: 1, file_count: 1, files_hash: 1 }),
        ("removed".to_string(), ModuleState { latest_mtime: 1, file_count: 1, files_hash: 1 }),
    ];
    let result = check_staleness(&manifest, &fresh);
    assert!(!result.is_stale);
}
