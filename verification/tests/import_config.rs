use toml_edit::DocumentMut;
use zenops::import::ImportError;
use zenops::import_config::{find_managed_root, find_matching_config, ImportType};

fn doc(src: &str) -> DocumentMut {
    src.parse::<DocumentMut>().unwrap()
}

const CONFIG: &str = r#"
[pkg.helix]
[[pkg.helix.configs]]
type = ".config"
source = "configs/helix"
symlinks = ["config.toml", "languages.toml"]

[pkg.ssh]
[[pkg.ssh.configs]]
type = "home"
dir = ".ssh"
source = "configs/ssh"
symlinks = ["config"]

[pkg.nvim]
[[pkg.nvim.configs]]
type = ".config"
name = "nvim-custom"
source = "configs/nvim"
"#;

#[test]
fn file_under_a_managed_dotconfig_dir_extends_its_entry() {
    let m = find_matching_config(&doc(CONFIG), ".config/helix/themes/dark.toml").unwrap().unwrap();
    assert_eq!(m.pkg_key, "helix");
    assert_eq!(m.config_index, 0);
    assert_eq!(m.import_type, ImportType::DotConfig);
    assert_eq!(m.on_disk_root, ".config/helix");
    assert_eq!(m.source_rel, "configs/helix");
    assert_eq!(m.file_rel, "themes/dark.toml");
    assert_eq!(m.existing_symlinks, vec!["config.toml".to_string(), "languages.toml".to_string()]);
}

#[test]
fn named_dotconfig_entry_roots_at_its_name() {
    let m = find_matching_config(&doc(CONFIG), ".config/nvim-custom/init.lua").unwrap().unwrap();
    assert_eq!(m.pkg_key, "nvim");
    assert!(m.existing_symlinks.is_empty());
    assert!(find_matching_config(&doc(CONFIG), ".config/nvim/init.lua").unwrap().is_none());
}

#[test]
fn home_entry_roots_at_its_dir() {
    let m = find_matching_config(&doc(CONFIG), ".ssh/known_hosts").unwrap().unwrap();
    assert_eq!(m.pkg_key, "ssh");
    assert_eq!(m.import_type, ImportType::Home);
    assert_eq!(m.file_rel, "known_hosts");
}

#[test]
fn the_root_itself_is_not_a_strict_descendant() {
    assert!(find_matching_config(&doc(CONFIG), ".config/helix").unwrap().is_none());
    assert!(find_matching_config(&doc(CONFIG), ".bashrc").unwrap().is_none());
}

#[test]
fn managed_root_matches_only_the_root_itself() {
    let m = find_managed_root(&doc(CONFIG), ".ssh").unwrap().unwrap();
    assert_eq!(m.pkg_key, "ssh");
    assert_eq!(m.file_rel, "");
    assert!(find_managed_root(&doc(CONFIG), ".ssh/config").unwrap().is_none());
}

#[test]
fn longest_root_wins() {
    let d = doc(r#"
[pkg.outer]
[[pkg.outer.configs]]
type = "home"
dir = ".local"
source = "configs/outer"

[pkg.inner]
[[pkg.inner.configs]]
type = "home"
dir = ".local/share"
source = "configs/inner"
"#);
    let m = find_matching_config(&d, ".local/share/x").unwrap().unwrap();
    assert_eq!(m.pkg_key, "inner");
    assert_eq!(m.file_rel, "x");
}

#[test]
fn two_entries_with_the_same_root_are_ambiguous() {
    let d = doc(r#"
[pkg.a]
[[pkg.a.configs]]
type = "home"
dir = ".x"
source = "configs/a"

[pkg.b]
[[pkg.b.configs]]
type = "home"
dir = ".x"
source = "configs/b"
"#);
    assert_eq!(
        find_matching_config(&d, ".x/f"),
        Err(ImportError::AmbiguousConfigMatch { path: ".x/f".to_string(), candidates: vec!["a".to_string(), "b".to_string()] })
    );
    assert_eq!(
        find_managed_root(&d, ".x"),
        Err(ImportError::AmbiguousConfigMatch { path: ".x".to_string(), candidates: vec!["a".to_string(), "b".to_string()] })
    );
}

#[test]
fn entries_without_source_or_known_type_are_ignored() {
    let d = doc(r#"
[pkg.a]
[[pkg.a.configs]]
type = "home"
dir = ".x"

[[pkg.a.configs]]
type = "weird"
dir = ".x"
source = "s"

[[pkg.a.configs]]
type = "home"
dir = ""
source = "s"
"#);
    assert!(find_matching_config(&d, ".x/f").unwrap().is_none());
    assert!(find_managed_root(&d, ".x").unwrap().is_none());
}

#[test]
fn document_without_pkg_table_matches_nothing() {
    assert!(find_matching_config(&doc("[user]\nname = \"x\"\n"), ".config/a/b").unwrap().is_none());
}
