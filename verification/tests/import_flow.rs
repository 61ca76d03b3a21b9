use toml_edit::DocumentMut;
use zenops::config_files::ConfigFileDirs;
use zenops::import::{ImportError, Layout};
use zenops::import_apply::{
    created_file_action, created_symlink_action, import_steps, rollback_steps, walk_step, EntryKind, ImportStep,
    UndoLog, UndoStep, WalkStep,
};
use zenops::import_config::ImportType;
use zenops::import_doc::{try_update_doc, update_doc};
use zenops::import_event::{plan_to_event, symlinks_array_preview, ImportFileAction, ImportMode, ImportTomlChange};
use zenops::import_new::{
    build_new_plan, check_extend_flags, check_import_args, import_tail, new_entry_roots, pkg_block_exists,
    pkg_has_configs_entries, plan_is_noop, route_import, CollectedEntry, ImportRoute, NewEntryKind,
};
use zenops::import_plan::{PlannedFile, Plan, RemovedFile, RenamedFile, SkippedEntry, TomlPlan};
use zenops::output::AppliedAction;

fn strings(xs: &[&str]) -> Vec<String> {
    xs.iter().map(|s| s.to_string()).collect()
}

fn doc(text: &str) -> DocumentMut {
    text.parse().unwrap()
}

const HELIX_DOC: &str = r#"[pkg.helix]
configs = [{ type = ".config", source = "configs/helix", symlinks = ["config.toml"] }]
"#;

fn helix_doc() -> DocumentMut {
    doc("[[pkg.helix.configs]]\ntype = \".config\"\nsource = \"configs/helix\"\nsymlinks = [\"config.toml\"]\n")
}

#[test]
fn empty_brew_name_is_refused_first() {
    assert_eq!(check_import_args(&strings(&["a", ""]), Some("/abs")), Err(ImportError::EmptyBrewPackage));
}

#[test]
fn source_override_must_stay_inside_the_repo() {
    assert_eq!(
        check_import_args(&strings(&["a"]), Some("/etc")),
        Err(ImportError::SourceOverrideEscapesRepo("/etc".to_string()))
    );
    assert_eq!(
        check_import_args(&Vec::new(), Some("configs/../../x")),
        Err(ImportError::SourceOverrideEscapesRepo("configs/../../x".to_string()))
    );
    assert_eq!(check_import_args(&Vec::new(), Some("configs/x")), Ok(()));
    assert_eq!(check_import_args(&Vec::new(), None), Ok(()));
}

#[test]
fn import_tail_refuses_the_repo_and_paths_outside_home() {
    assert_eq!(
        import_tail("/h/.config/zenops", "/h", "/h/.config/zenops"),
        Err(ImportError::CannotImportZenopsRepo("/h/.config/zenops".to_string()))
    );
    assert_eq!(
        import_tail("/h/.config/zenops/configs", "/h", "/h/.config/zenops"),
        Err(ImportError::CannotImportZenopsRepo("/h/.config/zenops/configs".to_string()))
    );
    assert_eq!(import_tail("/etc/x", "/h", "/h/.config/zenops"), Err(ImportError::PathNotUnderHome("/etc/x".to_string())));
    assert_eq!(import_tail("/h/.config/helix", "/h", "/h/.config/zenops"), Ok(".config/helix".to_string()));
}

#[test]
fn route_prefers_the_managed_root_then_an_ancestor_then_a_new_entry() {
    let d = helix_doc();
    match route_import(&d, ".config/helix", "/h/.config/helix", true).unwrap() {
        ImportRoute::Reconcile(m) => assert_eq!(m.pkg_key, "helix"),
        other => panic!("unexpected: {other:?}"),
    }
    match route_import(&d, ".config/helix/themes/a.toml", "/h/.config/helix/themes/a.toml", false).unwrap() {
        ImportRoute::Extend(m) => assert_eq!(m.file_rel, "themes/a.toml"),
        other => panic!("unexpected: {other:?}"),
    }
    assert_eq!(
        route_import(&d, ".config/helix/themes", "/h/.config/helix/themes", true),
        Err(ImportError::ExtendDirectoryNotSupported("/h/.config/helix/themes".to_string()))
    );
    assert_eq!(
        route_import(&d, ".zshrc", "/h/.zshrc", false),
        Ok(ImportRoute::New(Layout::Home { name: ".zshrc".to_string() }))
    );
    assert_eq!(route_import(&d, "docs", "/h/docs", true), Err(ImportError::UnsupportedLayout("docs".to_string())));
}

#[test]
fn pkg_presence_checks_read_the_document() {
    let d = doc(HELIX_DOC);
    assert!(pkg_block_exists(&d, "helix"));
    assert!(!pkg_block_exists(&d, "zsh"));
    let d2 = helix_doc();
    assert!(pkg_has_configs_entries(&d2, "helix"));
    let d3 = doc("[pkg.zsh]\ndescription = \"shell\"\n");
    assert!(pkg_block_exists(&d3, "zsh"));
    assert!(!pkg_has_configs_entries(&d3, "zsh"));
}

#[test]
fn new_entry_roots_for_each_layout() {
    let d = doc("");
    let r = new_entry_roots(
        &d,
        &Layout::DotConfig { dir: "nvim".to_string() },
        true,
        Some("neovim"),
        None,
        "/h/.config/nvim",
        "/h",
        "/h/.config/zenops",
    )
    .unwrap();
    assert_eq!(r.pkg_key, "neovim");
    assert_eq!(r.kind, NewEntryKind::DotConfig { name_override: Some("nvim".to_string()) });
    assert_eq!(r.source_root, "/h/.config/nvim");
    assert_eq!(r.repo_rel, "configs/neovim");
    assert_eq!(r.repo_dest, "/h/.config/zenops/configs/neovim");

    let r = new_entry_roots(&d, &Layout::Home { name: ".zshrc".to_string() }, false, None, Some("dots/zsh"), "/h/.zshrc", "/h", "/z")
        .unwrap();
    assert_eq!(r.pkg_key, "zshrc");
    assert_eq!(r.kind, NewEntryKind::HomeSingleFile);
    assert_eq!(r.source_root, "/h");
    assert_eq!(r.repo_dest, "/z/dots/zsh");

    assert_eq!(
        new_entry_roots(&d, &Layout::DotConfig { dir: "nvim".to_string() }, false, None, None, "/h/.config/nvim", "/h", "/z"),
        Err(ImportError::ExpectedDirectory("/h/.config/nvim".to_string()))
    );
    let taken = helix_doc();
    assert_eq!(
        new_entry_roots(&taken, &Layout::DotConfig { dir: "helix".to_string() }, true, None, None, "/h/.config/helix", "/h", "/z"),
        Err(ImportError::PkgKeyTaken { pkg: "helix".to_string() })
    );
}

fn entry(rel: &str, dest_exists: bool, already_linked: bool) -> CollectedEntry {
    CollectedEntry { rel: rel.to_string(), repo_rel: rel.to_string(), dest_exists, already_linked }
}

fn nvim_roots() -> zenops::import_new::NewEntryRoots {
    let d = doc("");
    new_entry_roots(&d, &Layout::DotConfig { dir: "nvim".to_string() }, true, None, None, "/h/.config/nvim", "/h", "/z").unwrap()
}

#[test]
fn new_plan_moves_free_files_and_skips_imported_ones() {
    let roots = nvim_roots();
    let skipped = vec![SkippedEntry { path: ".git".to_string(), reason: "vcs".to_string() }];
    let plan = build_new_plan(
        &roots,
        "/h/.config/nvim",
        &vec![entry("init.lua", false, false), entry("lua/a.lua", true, true), entry("lua/b.lua", false, false)],
        skipped.clone(),
    )
    .unwrap();
    assert_eq!(plan.import_type, ImportType::DotConfig);
    assert_eq!(
        plan.files,
        vec![
            PlannedFile { rel: "init.lua".to_string(), repo_rel: "init.lua".to_string() },
            PlannedFile { rel: "lua/b.lua".to_string(), repo_rel: "lua/b.lua".to_string() },
        ]
    );
    assert_eq!(plan.skipped, skipped);
    assert_eq!(plan.toml, TomlPlan::DotConfig { name_override: None, symlinks: strings(&["init.lua", "lua/b.lua"]) });
}

#[test]
fn new_plan_refuses_a_taken_destination_and_an_empty_source() {
    let roots = nvim_roots();
    assert_eq!(
        build_new_plan(&roots, "/h/.config/nvim", &vec![entry("a", false, false), entry("b", true, false)], Vec::new()),
        Err(ImportError::DestExists("/z/configs/nvim/b".to_string()))
    );
    assert_eq!(
        build_new_plan(&roots, "/h/.config/nvim", &Vec::new(), Vec::new()),
        Err(ImportError::SourceEmpty("/h/.config/nvim".to_string()))
    );
    // Everything already imported: a plan with nothing to move.
    let plan = build_new_plan(&roots, "/h/.config/nvim", &vec![entry("a", true, true)], Vec::new()).unwrap();
    assert!(plan.files.is_empty());
}

fn reconcile_plan(added: &[&str], removed: &[&str]) -> Plan {
    Plan {
        pkg_key: "helix".to_string(),
        import_type: ImportType::DotConfig,
        source: "/h/.config/helix".to_string(),
        source_root: "/h/.config/helix".to_string(),
        repo_dest: "/z/configs/helix".to_string(),
        repo_rel: "configs/helix".to_string(),
        files: added.iter().map(|a| PlannedFile { rel: a.to_string(), repo_rel: a.to_string() }).collect(),
        skipped: Vec::new(),
        removed_files: removed.iter().map(|r| RemovedFile { repo_rel: r.to_string() }).collect(),
        renamed_files: Vec::new(),
        toml: TomlPlan::Reconcile {
            config_index: 0,
            existing_symlinks: strings(&["config.toml", "old.toml"]),
            added_symlinks: strings(added),
            removed_symlinks: strings(removed),
        },
    }
}

#[test]
fn noop_only_for_an_empty_reconcile() {
    assert!(plan_is_noop(&reconcile_plan(&[], &[])));
    assert!(!plan_is_noop(&reconcile_plan(&["n.toml"], &[])));
    let roots = nvim_roots();
    let plan = build_new_plan(&roots, "/h/.config/nvim", &vec![entry("a", true, true)], Vec::new()).unwrap();
    assert!(!plan_is_noop(&plan));
}

#[test]
fn extend_flags_are_refused_only_when_changing_an_existing_entry() {
    let plan = reconcile_plan(&[], &[]);
    assert_eq!(
        check_extend_flags(&plan, true, false, true, false),
        Err(ImportError::ExtendFlagsInvalid { flags: vec!["--pkg", "--brew"] })
    );
    assert_eq!(check_extend_flags(&plan, false, false, false, false), Ok(()));
    let roots = nvim_roots();
    let new_plan = build_new_plan(&roots, "/h/.config/nvim", &vec![entry("a", false, false)], Vec::new()).unwrap();
    assert_eq!(check_extend_flags(&new_plan, true, true, true, true), Ok(()));
}

#[test]
fn array_preview_drops_removed_and_appends_added() {
    assert_eq!(
        symlinks_array_preview(&strings(&["a", "b", "c"]), &strings(&["d"]), &strings(&["b"])),
        "symlinks = [\"a\", \"c\", \"d\"]"
    );
}

#[test]
fn plan_event_for_a_reconcile_lists_actions_and_both_edits() {
    let mut plan = reconcile_plan(&["n.toml"], &["old.toml"]);
    plan.renamed_files = vec![RenamedFile { from: "x.toml".to_string(), to: "y.toml".to_string() }];
    let ev = plan_to_event(&plan, false, false, &Vec::new());
    assert_eq!(ev.mode, ImportMode::Reconcile);
    assert_eq!(
        ev.file_actions,
        vec![
            ImportFileAction::MoveAndSymlink { rel: "n.toml".to_string() },
            ImportFileAction::RenameInRepo { from: "x.toml".to_string(), to: "y.toml".to_string() },
            ImportFileAction::RemoveFromRepo { rel: "old.toml".to_string() },
        ]
    );
    let after = "symlinks = [\"config.toml\", \"n.toml\"]".to_string();
    assert_eq!(
        ev.toml_changes,
        vec![
            ImportTomlChange::AppendSymlinks {
                pkg: "helix".to_string(),
                config_index: 0,
                paths: strings(&["n.toml"]),
                array_after_preview: after.clone(),
            },
            ImportTomlChange::TrimSymlinks {
                pkg: "helix".to_string(),
                config_index: 0,
                paths: strings(&["old.toml"]),
                array_after_preview: after,
            },
        ]
    );
}

#[test]
fn plan_event_for_a_new_pkg_previews_the_block_and_the_entry() {
    let roots = nvim_roots();
    let plan = build_new_plan(&roots, "/h/.config/nvim", &vec![entry("init.lua", false, false)], Vec::new()).unwrap();
    let ev = plan_to_event(&plan, true, false, &strings(&["neovim"]));
    assert_eq!(ev.mode, ImportMode::NewPkg);
    assert_eq!(ev.toml_changes.len(), 2);
    match &ev.toml_changes[0] {
        ImportTomlChange::CreatePkg { pkg, brew_packages, block_preview } => {
            assert_eq!(pkg, "nvim");
            assert_eq!(brew_packages, &strings(&["neovim"]));
            assert!(block_preview.contains("packages = [\"neovim\"]"), "{block_preview:?}");
            assert!(!block_preview.ends_with('\n'));
        }
        other => panic!("unexpected: {other:?}"),
    }
    match &ev.toml_changes[1] {
        ImportTomlChange::AppendConfigsEntry { pkg, entry_preview } => {
            assert_eq!(pkg, "nvim");
            assert_eq!(
                entry_preview,
                "type = \".config\"\nsource = \"configs/nvim\"\nsymlinks = [\"init.lua\"]"
            );
        }
        other => panic!("unexpected: {other:?}"),
    }
    let ev2 = plan_to_event(&plan, false, false, &Vec::new());
    assert_eq!(ev2.mode, ImportMode::Extend);
    assert_eq!(ev2.toml_changes.len(), 1);
}

#[test]
fn update_doc_reconciles_the_symlinks_array() {
    let mut d = helix_doc();
    let plan = reconcile_plan(&["n.toml"], &["config.toml"]);
    assert!(try_update_doc(&mut d, &plan, false, false, &Vec::new()));
    let arr = d["pkg"]["helix"]["configs"][0]["symlinks"].as_array().unwrap();
    let items: Vec<&str> = arr.iter().filter_map(|v| v.as_str()).collect();
    assert_eq!(items, vec!["n.toml"]);
}

#[test]
fn update_doc_adds_a_new_pkg_with_its_install_hint_and_entry() {
    let mut d = doc("[shell]\ntype = \"zsh\"\n");
    let roots = nvim_roots();
    let plan = build_new_plan(&roots, "/h/.config/nvim", &vec![entry("init.lua", false, false)], Vec::new()).unwrap();
    update_doc(&mut d, &plan, true, false, &strings(&["neovim"]));
    let pkgs = d["pkg"]["nvim"]["install_hint"]["brew"]["packages"].as_array().unwrap();
    assert_eq!(pkgs.iter().filter_map(|v| v.as_str()).collect::<Vec<_>>(), vec!["neovim"]);
    let e = &d["pkg"]["nvim"]["configs"][0];
    assert_eq!(e["type"].as_str(), Some(".config"));
    assert_eq!(e["source"].as_str(), Some("configs/nvim"));
    assert_eq!(d["shell"]["type"].as_str(), Some("zsh"));
}

#[test]
fn update_doc_refuses_a_document_of_the_wrong_shape() {
    let mut d = doc("pkg = 3\n");
    let roots = nvim_roots();
    let plan = build_new_plan(&roots, "/h/.config/nvim", &vec![entry("init.lua", false, false)], Vec::new()).unwrap();
    let before = d.to_string();
    assert!(!try_update_doc(&mut d, &plan, true, false, &Vec::new()));
    assert_eq!(d.to_string(), before);
}

#[test]
fn steps_copy_everything_before_linking() {
    let mut plan = reconcile_plan(&["a", "b"], &["old"]);
    plan.renamed_files = vec![RenamedFile { from: "x".to_string(), to: "y".to_string() }];
    assert_eq!(
        import_steps(&plan),
        vec![
            ImportStep::Copy { src: "/h/.config/helix/a".to_string(), dst: "/z/configs/helix/a".to_string() },
            ImportStep::Copy { src: "/h/.config/helix/b".to_string(), dst: "/z/configs/helix/b".to_string() },
            ImportStep::Link { symlink: "/h/.config/helix/a".to_string(), target: "/z/configs/helix/a".to_string() },
            ImportStep::Link { symlink: "/h/.config/helix/b".to_string(), target: "/z/configs/helix/b".to_string() },
            ImportStep::Rename {
                from: "/z/configs/helix/x".to_string(),
                to: "/z/configs/helix/y".to_string(),
                link: "/h/.config/helix/y".to_string(),
            },
            ImportStep::Remove { path: "/z/configs/helix/old".to_string() },
        ]
    );
}

#[test]
fn rollback_undoes_latest_first() {
    let log = UndoLog {
        dirs_created: strings(&["/z/d1", "/z/d2"]),
        files_copied: strings(&["/z/f1", "/z/f2"]),
        symlinks_created: vec![("/h/l1".to_string(), "/z/f1".to_string())],
    };
    assert_eq!(
        rollback_steps(&log),
        vec![
            UndoStep::RestoreOriginal { symlink: "/h/l1".to_string(), target: "/z/f1".to_string() },
            UndoStep::RemoveFile("/z/f2".to_string()),
            UndoStep::RemoveFile("/z/f1".to_string()),
            UndoStep::RemoveDir("/z/d2".to_string()),
            UndoStep::RemoveDir("/z/d1".to_string()),
        ]
    );
}

#[test]
fn walk_skips_symlinks_vcs_and_other_entries() {
    assert_eq!(walk_step("a", EntryKind::Symlink), WalkStep::Skip("symlink"));
    assert_eq!(walk_step("a", EntryKind::File), WalkStep::Collect);
    assert_eq!(walk_step(".git", EntryKind::Dir), WalkStep::Skip("vcs"));
    assert_eq!(walk_step(".hg", EntryKind::Dir), WalkStep::Skip("vcs"));
    assert_eq!(walk_step("lua", EntryKind::Dir), WalkStep::Descend);
    assert_eq!(walk_step("fifo", EntryKind::Other), WalkStep::Skip("other"));
}

#[test]
fn applied_actions_name_repo_and_home_paths() {
    let dirs = ConfigFileDirs::load("/home/u".to_string());
    match created_file_action(&dirs, "configs/helix", "themes/a.toml").unwrap() {
        AppliedAction::CreatedFile(p) => assert_eq!(p.full, "/home/u/.config/zenops/configs/helix/themes/a.toml"),
        other => panic!("unexpected: {other:?}"),
    }
    match created_symlink_action(&dirs, "configs/helix", "a.toml", "/home/u/.config/helix", "a.toml").unwrap() {
        AppliedAction::CreatedSymlink { real, symlink } => {
            assert_eq!(real.full, "/home/u/.config/zenops/configs/helix/a.toml");
            assert_eq!(symlink.full, "/home/u/.config/helix/a.toml");
            assert_eq!(symlink.path.human_path(), "~/.config/helix/a.toml");
        }
        other => panic!("unexpected: {other:?}"),
    }
    assert!(created_file_action(&dirs, "configs/helix", "../x").is_err());
}

#[test]
fn update_doc_keeps_the_existing_text_and_writes_the_new_pkg_after_it() {
    let before = "# my config\n[shell]\ntype = \"zsh\"\n\n[pkg.helix]\ndescription = \"editor\"\n";
    let mut d = doc(before);
    let roots = nvim_roots();
    let plan = build_new_plan(&roots, "/h/.config/nvim", &vec![entry("init.lua", false, false)], Vec::new()).unwrap();
    update_doc(&mut d, &plan, true, true, &Vec::new());
    let after = d.to_string();
    assert!(after.starts_with(before), "{after}");
    assert!(after.contains("[[pkg.nvim.configs]]"), "{after}");
    assert!(after.find("[pkg.helix]").unwrap() < after.find("pkg.nvim").unwrap(), "{after}");
}
