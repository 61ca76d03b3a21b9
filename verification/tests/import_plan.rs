use zenops::import::ImportError;
use zenops::import_config::{ConfigMatch, ImportType};
use zenops::import_plan::{
    build_extend_plan, build_reconcile_plan, PlannedFile, RemovedFile, RenamedFile, SkippedEntry, TomlPlan,
    WalkedFile, WalkedSkip,
};

fn helix(file_rel: &str, symlinks: &[&str]) -> ConfigMatch {
    ConfigMatch {
        pkg_key: "helix".to_string(),
        config_index: 0,
        import_type: ImportType::DotConfig,
        on_disk_root: ".config/helix".to_string(),
        source_rel: "configs/helix".to_string(),
        file_rel: file_rel.to_string(),
        existing_symlinks: symlinks.iter().map(|s| s.to_string()).collect(),
    }
}

fn strings(xs: &[&str]) -> Vec<String> {
    xs.iter().map(|s| s.to_string()).collect()
}

#[test]
fn extend_moves_the_file_in_and_lists_it() {
    let m = helix("themes/dark.toml", &["config.toml"]);
    let plan = build_extend_plan(&m, "/h/.config/helix/themes/dark.toml", "/h", "/h/.config/zenops", false, false).unwrap();
    assert_eq!(plan.source_root, "/h/.config/helix");
    assert_eq!(plan.repo_dest, "/h/.config/zenops/configs/helix");
    assert_eq!(plan.files, vec![PlannedFile { rel: "themes/dark.toml".to_string(), repo_rel: "themes/dark.toml".to_string() }]);
    assert_eq!(
        plan.toml,
        TomlPlan::ExtendExisting { config_index: 0, existing_symlinks: strings(&["config.toml"]), added_symlinks: strings(&["themes/dark.toml"]) }
    );
}

#[test]
fn extend_of_an_already_linked_listed_file_changes_nothing() {
    let m = helix("config.toml", &["config.toml"]);
    let plan = build_extend_plan(&m, "/h/.config/helix/config.toml", "/h", "/z", true, true).unwrap();
    assert!(plan.files.is_empty());
    assert_eq!(plan.toml, TomlPlan::ExtendExisting { config_index: 0, existing_symlinks: strings(&["config.toml"]), added_symlinks: Vec::new() });
}

#[test]
fn extend_refuses_to_overwrite_a_repo_file() {
    let m = helix("a.toml", &[]);
    assert_eq!(
        build_extend_plan(&m, "/h/.config/helix/a.toml", "/h", "/z", true, false),
        Err(ImportError::DestExists("/z/configs/helix/a.toml".to_string()))
    );
}

#[test]
fn reconcile_requires_a_directory() {
    let m = helix("", &[]);
    assert_eq!(
        build_reconcile_plan(&m, "/h/.config/helix", false, "/h", "/z", &[], &[], &[]),
        Err(ImportError::UnsupportedLayout(".config/helix".to_string()))
    );
}

#[test]
fn reconcile_adds_new_files_and_removes_vanished_ones() {
    let m = helix("", &["config.toml", "gone.toml"]);
    let files = vec![
        WalkedFile { rel: "new.toml".to_string(), dest_exists: false, linked: false },
        WalkedFile { rel: "config.toml".to_string(), dest_exists: true, linked: false },
    ];
    let plan = build_reconcile_plan(&m, "/h/.config/helix", true, "/h", "/z", &files, &[], &[true, false]).unwrap();
    assert_eq!(plan.files, vec![PlannedFile { rel: "new.toml".to_string(), repo_rel: "new.toml".to_string() }]);
    assert_eq!(plan.skipped, vec![SkippedEntry { path: "config.toml".to_string(), reason: "present_but_not_linked".to_string() }]);
    assert_eq!(plan.removed_files, vec![RemovedFile { repo_rel: "gone.toml".to_string() }]);
    assert_eq!(
        plan.toml,
        TomlPlan::Reconcile {
            config_index: 0,
            existing_symlinks: strings(&["config.toml", "gone.toml"]),
            added_symlinks: strings(&["new.toml"]),
            removed_symlinks: strings(&["gone.toml"]),
        }
    );
}

#[test]
fn reconcile_detects_a_moved_symlink_as_a_rename() {
    let m = helix("", &["old.toml"]);
    let skipped = vec![
        WalkedSkip { rel: "new.toml".to_string(), reason: "symlink".to_string(), target: Some("/z/configs/helix/old.toml".to_string()) },
        WalkedSkip { rel: "in-sync.toml".to_string(), reason: "symlink".to_string(), target: Some("/z/configs/helix/in-sync.toml".to_string()) },
        WalkedSkip { rel: "elsewhere".to_string(), reason: "symlink".to_string(), target: Some("/etc/x".to_string()) },
        WalkedSkip { rel: ".git".to_string(), reason: "vcs".to_string(), target: None },
    ];
    let plan = build_reconcile_plan(&m, "/h/.config/helix", true, "/h", "/z", &[], &skipped, &[false]).unwrap();
    assert_eq!(plan.renamed_files, vec![RenamedFile { from: "old.toml".to_string(), to: "new.toml".to_string() }]);
    assert_eq!(
        plan.skipped,
        vec![
            SkippedEntry { path: "elsewhere".to_string(), reason: "symlink_elsewhere".to_string() },
            SkippedEntry { path: ".git".to_string(), reason: "vcs".to_string() },
        ]
    );
    assert!(plan.removed_files.is_empty());
    assert_eq!(
        plan.toml,
        TomlPlan::Reconcile {
            config_index: 0,
            existing_symlinks: strings(&["old.toml"]),
            added_symlinks: strings(&["new.toml"]),
            removed_symlinks: strings(&["old.toml"]),
        }
    );
}

#[test]
fn reconcile_refuses_an_occupied_repo_path() {
    let m = helix("", &[]);
    let files = vec![WalkedFile { rel: "x.toml".to_string(), dest_exists: true, linked: false }];
    assert_eq!(
        build_reconcile_plan(&m, "/h/.config/helix", true, "/h", "/z", &files, &[], &[]),
        Err(ImportError::DestExists("/z/configs/helix/x.toml".to_string()))
    );
}
