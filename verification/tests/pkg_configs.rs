use zenops::config_files::{ConfigFileDirs, ConfigFilePath, ConfigFileSource, ConfigFiles};
use zenops::pkg_configs::{update_config_files, PkgConfigFiles, StoredConfigFiles};
use zenops::safe_path::{SafeRelativePath, SinglePathComponent};

fn rel(s: &str) -> SafeRelativePath {
    SafeRelativePath::from_relative_path(s).unwrap()
}

fn stored(source: &str, symlinks: &[&str]) -> StoredConfigFiles {
    StoredConfigFiles { source: rel(source), symlinks: symlinks.iter().map(|s| rel(s)).collect() }
}

#[test]
fn dot_config_entry_defaults_to_the_pkg_key() {
    let c = PkgConfigFiles::DotConfig { name: None, configs: stored("configs/helix", &["config.toml", "themes/a.toml"]) };
    let links = c.links("helix").unwrap();
    assert_eq!(links.len(), 2);
    match &links[1] {
        (ConfigFilePath::DotConfig(p), ConfigFileSource::SymlinkFrom(ConfigFilePath::Zenops(q))) => {
            assert_eq!(p.as_str(), "helix/themes/a.toml");
            assert_eq!(q.as_str(), "configs/helix/themes/a.toml");
        }
        other => panic!("unexpected: {other:?}"),
    }
}

#[test]
fn dot_config_entry_name_overrides_the_key() {
    let c = PkgConfigFiles::DotConfig {
        name: Some(SinglePathComponent::try_new("nvim").unwrap()),
        configs: stored("configs/neovim", &["init.lua"]),
    };
    match &c.links("neovim").unwrap()[0].0 {
        ConfigFilePath::DotConfig(p) => assert_eq!(p.as_str(), "nvim/init.lua"),
        other => panic!("unexpected: {other:?}"),
    }
}

#[test]
fn unnamed_dot_config_entry_needs_a_single_component_key() {
    let c = PkgConfigFiles::DotConfig { name: None, configs: stored("configs/x", &["a"]) };
    assert!(c.links("a/b").is_err());
}

#[test]
fn home_entries_register_their_symlinks() {
    let dirs = ConfigFileDirs::load("/home/u".to_string());
    let mut files = ConfigFiles::new(&dirs);
    let c = PkgConfigFiles::Home { dir: rel(".ssh"), configs: stored("configs/ssh", &["config"]) };
    update_config_files(&c, "ssh", &mut files).unwrap();
    assert_eq!(files.len(), 1);
    let (full, entry) = files.entry(0);
    assert_eq!(full, "/home/u/.ssh/config");
    assert_eq!(entry.path.human_path(), "~/.ssh/config");
}
