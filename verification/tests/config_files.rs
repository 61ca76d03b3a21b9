use zenops::config_files::{diff_hunks, reconstruct, ConfigFileDirs, ConfigFilePath};
use zenops::safe_path::SafeRelativePath;

#[test]
fn reconstruct_all_approved_equals_want() {
    let old = "a\nb\nc\n";
    let new = "a\nB\nc\n";
    let groups = diff_hunks(old, new);
    let approvals = vec![true; groups.len()];
    assert_eq!(reconstruct(old, new, &groups, &approvals), new);
}

#[test]
fn reconstruct_none_approved_equals_cur() {
    let old = "a\nb\nc\n";
    let new = "a\nB\nc\n";
    let groups = diff_hunks(old, new);
    let approvals = vec![false; groups.len()];
    assert_eq!(reconstruct(old, new, &groups, &approvals), old);
}

#[test]
fn reconstruct_mixed_applies_only_approved_hunks() {
    let old = "1\n2\n3\n4\n5\n6\n7\n8\n9\n10\n11\n12\n13\n14\n15\n";
    let new = "1\nX\n3\n4\n5\n6\n7\n8\n9\n10\n11\n12\n13\nY\n15\n";
    let groups = diff_hunks(old, new);
    assert_eq!(groups.len(), 2, "expected two separate hunks");
    let got = reconstruct(old, new, &groups, &[true, false]);
    assert_eq!(got, "1\nX\n3\n4\n5\n6\n7\n8\n9\n10\n11\n12\n13\n14\n15\n");
    let got = reconstruct(old, new, &groups, &[false, true]);
    assert_eq!(got, "1\n2\n3\n4\n5\n6\n7\n8\n9\n10\n11\n12\n13\nY\n15\n");
}

#[test]
fn reconstruct_handles_missing_trailing_newline() {
    let old = "a\nb";
    let new = "a\nc";
    let groups = diff_hunks(old, new);
    assert_eq!(reconstruct(old, new, &groups, &vec![true; groups.len()]), new);
    assert_eq!(reconstruct(old, new, &groups, &vec![false; groups.len()]), old);
}

#[test]
fn config_file_dirs_load_derives_roots() {
    let dirs = ConfigFileDirs::load("/home/test".to_string());
    assert_eq!(dirs.home(), "/home/test");
    assert_eq!(dirs.zenops(), "/home/test/.config/zenops");
    assert_eq!(dirs.config, "/home/test/.config");
    let dirs = ConfigFileDirs::load("/".to_string());
    assert_eq!(dirs.zenops(), "/.config/zenops");
}

#[test]
fn human_path_uses_symbolic_roots() {
    let rel = SafeRelativePath::from_relative_path("helix/config.toml").unwrap();
    let empty = SafeRelativePath::from_relative_path("").unwrap();
    assert_eq!(ConfigFilePath::in_home(&rel).human_path(), "~/helix/config.toml");
    assert_eq!(ConfigFilePath::DotConfig(rel.clone()).human_path(), "~/.config/helix/config.toml");
    assert_eq!(ConfigFilePath::Zenops(empty.clone()).human_path(), "~/.config/zenops");
    assert!(ConfigFilePath::Zenops(empty).parent().is_none());
    assert_eq!(ConfigFilePath::in_home(&rel).parent().unwrap().human_path(), "~/helix");
}

#[test]
fn resolved_appends_normal_components_to_the_root() {
    let dirs = ConfigFileDirs::load("/home/test".to_string());
    let rel = SafeRelativePath::from_relative_path("./a//b").unwrap();
    assert_eq!(ConfigFilePath::Zenops(rel.clone()).resolved(&dirs), "/home/test/.config/zenops/a/b");
    assert_eq!(ConfigFilePath::DotConfig(rel).resolved(&dirs), "/home/test/.config/a/b");
}
