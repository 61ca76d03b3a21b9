use zenops::config_files::{diff_hunks, reconstruct};
use zenops::import::ImportError;
use zenops::import_new::{check_source, source_path};
use zenops::pkg::which_candidates;

#[test]
fn path_candidates_follow_path_order() {
    assert_eq!(
        which_candidates("/usr/local/bin:/usr/bin/", "brew"),
        vec!["/usr/local/bin/brew".to_string(), "/usr/bin/brew".to_string()]
    );
    assert_eq!(which_candidates("", "brew"), vec!["brew".to_string()]);
    assert_eq!(which_candidates("/a::/b", "x"), vec!["/a/x".to_string(), "x".to_string(), "/b/x".to_string()]);
    assert_eq!(which_candidates("/a", "/opt/x"), vec!["/opt/x".to_string()]);
}

#[test]
fn source_path_is_raw_when_absolute_else_under_cwd() {
    assert_eq!(source_path("/h/.zshrc", "/tmp"), "/h/.zshrc");
    assert_eq!(source_path(".zshrc", "/h"), "/h/.zshrc");
}

#[test]
fn missing_or_symlinked_sources_are_refused() {
    assert_eq!(check_source("/h/.x", false, false), Err(ImportError::SourceMissing("/h/.x".to_string())));
    assert_eq!(check_source("/h/.x", true, true), Err(ImportError::SourceIsSymlink("/h/.x".to_string())));
    assert_eq!(check_source("/h/.x", true, false), Ok(()));
}

#[test]
fn identical_texts_have_no_hunks_and_rebuild_unchanged() {
    let t = "a\rb\nc\n";
    let groups = diff_hunks(t, t);
    assert!(groups.is_empty());
    assert_eq!(reconstruct(t, t, &groups, &[]), t);
}
