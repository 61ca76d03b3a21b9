use zenops::safe_path::{srpath, Error, SafeRelativePath, SafeRelativePathBuf, SinglePathComponent};

#[test]
fn macros_test_basic_paths() {
    let path1 = srpath("foo/bar");
    let path2 = srpath("baz");
    let path3 = srpath("deep/nested/path/file.txt");
    assert_eq!(path1.to_string(), "foo/bar");
    assert_eq!(path2.to_string(), "baz");
    assert_eq!(path3.to_string(), "deep/nested/path/file.txt");
}

#[test]
fn test_current_dir_paths() {
    let path1 = srpath("./foo");
    let path2 = srpath(".");
    let path3 = srpath("./bar/baz");
    assert_eq!(path1.to_string(), "./foo");
    assert_eq!(path2.to_string(), ".");
    assert_eq!(path3.to_string(), "./bar/baz");
}

#[test]
fn test_empty_path() {
    let path = srpath("");
    assert_eq!(path.to_string(), "");
}

#[test]
fn test_path_operations() {
    let path = srpath("foo/bar");
    let path_buf = path.to_safe_relative_path_buf();
    assert_eq!(path_buf.to_string(), "foo/bar");
    let prefixed = srpath("base").safe_join(&path);
    assert_eq!(prefixed.to_string(), "base/foo/bar");
}

#[test]
fn basics_test_basic_paths() {
    assert_eq!(SafeRelativePath::from_relative_path("foo/bar").unwrap().as_str(), "foo/bar");
    assert_eq!(SafeRelativePath::from_relative_path("baz").unwrap().as_str(), "baz");
}

#[test]
fn from_relative_path_rejects_parent_traversal() {
    let err = SafeRelativePath::from_relative_path("../escape").unwrap_err();
    assert_eq!(err, Error::PathGoesOutsideParent("../escape".into()));
    let err = SafeRelativePath::from_relative_path("foo/../../bar").unwrap_err();
    assert_eq!(err, Error::PathGoesOutsideParent("foo/../../bar".into()));
}

#[test]
fn try_join_succeeds_for_safe_path_and_fails_for_traversal() {
    let base = SafeRelativePath::from_relative_path("base").unwrap();
    let joined = base.try_join("nested/file").unwrap();
    assert_eq!(joined.as_str(), "base/nested/file");
    let err = base.try_join("../escape").unwrap_err();
    assert_eq!(err, Error::PathGoesOutsideParent("../escape".into()));
}

#[test]
fn safe_parent_walks_up_one_component_at_a_time() {
    let p = SafeRelativePath::from_relative_path("a/b/c").unwrap();
    assert_eq!(p.safe_parent().unwrap().as_str(), "a/b");
    assert_eq!(p.safe_parent().unwrap().safe_parent().unwrap().as_str(), "a",);
    let root = SafeRelativePath::from_relative_path("").unwrap();
    assert!(root.safe_parent().is_none());
}

#[test]
fn to_full_path_appends_relative_to_base() {
    let p = SafeRelativePath::from_relative_path("sub/file.txt").unwrap();
    assert_eq!(p.to_full_path("/tmp/base"), "/tmp/base/sub/file.txt");
}

#[test]
fn normalize_safe_collapses_current_dir_segments() {
    let p = SafeRelativePath::from_relative_path("./foo/./bar").unwrap();
    assert_eq!(p.normalize_safe().as_str(), "foo/bar");
}

#[test]
fn single_path_component_accepts_a_single_segment() {
    let c = SinglePathComponent::try_new("name").unwrap();
    assert_eq!(c.as_str(), "name");
    let p: &SafeRelativePath = c.as_safe_relative_path();
    assert_eq!(p.as_str(), "name");
}

#[test]
fn single_path_component_rejects_multi_component_paths() {
    let err = SinglePathComponent::try_new("a/b").unwrap_err();
    assert_eq!(err, Error::NotASinglePathComponent("a/b".to_string()));
}

#[test]
fn single_path_component_rejects_parent_traversal() {
    let err = SinglePathComponent::try_new("..").unwrap_err();
    assert_eq!(err, Error::PathGoesOutsideParent("..".into()));
}

#[test]
fn test_validate_safe_paths() {
    assert!(zenops::safe_path::is_safe_relative_path("foo/bar"));
    assert!(zenops::safe_path::is_safe_relative_path("./foo/bar"));
    assert!(zenops::safe_path::is_safe_relative_path(""));
    assert!(zenops::safe_path::is_safe_relative_path("."));
}

#[test]
fn test_validate_unsafe_paths() {
    for p in ["../foo", "foo/../bar", "foo/../../bar", "foo/../../foo/bar", "a/b/c/../..", "a/../..", ".."] {
        assert!(!zenops::safe_path::is_safe_relative_path(p), "{p}");
    }
}

#[test]
fn with_prefix_and_single_component_join() {
    let p = SafeRelativePath::from_relative_path("x/y").unwrap();
    let base = SafeRelativePath::from_relative_path("base/").unwrap();
    assert_eq!(p.with_prefix(&base).as_str(), "base/x/y");
    let c = SinglePathComponent::try_new("pkg").unwrap();
    assert_eq!(c.safe_join(&p).as_str(), "pkg/x/y");
    let buf: SafeRelativePathBuf = p.to_safe_relative_path_buf();
    assert_eq!(buf.as_str(), "x/y");
}
