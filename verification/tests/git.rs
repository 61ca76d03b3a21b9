use zenops::error::Error;
use zenops::git::{parse_is_inside_work_tree, parse_porcelain_v2, porcelain_is_ok, status_from_xy, GitFileStatus};
use zenops::safe_path::SafeRelativePath;

fn p(s: &str) -> SafeRelativePath {
    SafeRelativePath::from_relative_path(s).unwrap()
}

#[test]
fn parse_is_inside_work_tree_recognises_true() {
    assert!(parse_is_inside_work_tree("true"));
    assert!(parse_is_inside_work_tree("true\n"));
    assert!(parse_is_inside_work_tree("  true  "));
}

#[test]
fn parse_is_inside_work_tree_treats_empty_as_not_a_repo() {
    assert!(!parse_is_inside_work_tree(""));
    assert!(!parse_is_inside_work_tree("\n"));
}

#[test]
fn parse_is_inside_work_tree_treats_false_as_not_a_work_tree() {
    assert!(!parse_is_inside_work_tree("false"));
}

#[test]
fn parse_porcelain_v2_skips_unknown_tag() {
    let out = "xyz some/path\n";
    assert_eq!(parse_porcelain_v2(out).unwrap(), Vec::new());
}

#[test]
fn parse_porcelain_v2_skips_ignored_marker() {
    let out = "! ignored.txt\n";
    assert_eq!(parse_porcelain_v2(out).unwrap(), Vec::new());
}

#[test]
fn parse_porcelain_v2_rejects_unsafe_path() {
    let out = "1 .M N... 100644 100644 100644 abcd abcd ../escape\n";
    let err = parse_porcelain_v2(out).unwrap_err();
    assert!(
        matches!(err, Error::SafeRelativePath(_)),
        "expected SafeRelativePath error, got: {err:?}",
    );
}

#[test]
fn parse_porcelain_v2_handles_mixed_known_and_skipped_lines() {
    let out = "! ignored.txt\n? wanted.txt\nxyz junk\n";
    let entries = parse_porcelain_v2(out).unwrap();
    assert_eq!(entries, vec![GitFileStatus::Untracked(p("wanted.txt"))]);
}

#[test]
fn parse_is_inside_work_tree_falls_back_to_false_for_unknown_output() {
    assert!(!parse_is_inside_work_tree("garbage"));
    assert!(!parse_is_inside_work_tree("yes"));
    assert!(!parse_is_inside_work_tree("fatal: not a git repository"));
}

#[test]
fn parse_porcelain_v2_reads_each_line_kind() {
    let out = "1 .M N... 100644 100644 100644 abcd abcd a/b.txt\n\
               1 A. N... 000000 100644 100644 0000 abcd new.txt\n\
               1 .D N... 100644 100644 000000 abcd abcd gone.txt\r\n\
               2 R. N... 100644 100644 100644 abcd abcd R100 moved.txt\told.txt\n\
               u UU N... 100644 100644 100644 100644 a b c conflict.txt\n\
               ? untracked.txt";
    let entries = parse_porcelain_v2(out).unwrap();
    assert_eq!(
        entries,
        vec![
            GitFileStatus::Modified(p("a/b.txt")),
            GitFileStatus::Added(p("new.txt")),
            GitFileStatus::Deleted(p("gone.txt")),
            GitFileStatus::Modified(p("moved.txt")),
            GitFileStatus::Other { code: "UU".to_string(), path: p("conflict.txt") },
            GitFileStatus::Untracked(p("untracked.txt")),
        ]
    );
}

#[test]
fn status_from_xy_prefers_worktree_side() {
    assert_eq!(status_from_xy("AM", p("f")), GitFileStatus::Modified(p("f")));
    assert_eq!(status_from_xy("M.", p("f")), GitFileStatus::Modified(p("f")));
    assert_eq!(status_from_xy("A.", p("f")), GitFileStatus::Added(p("f")));
    assert_eq!(status_from_xy(".D", p("f")), GitFileStatus::Deleted(p("f")));
    assert_eq!(
        status_from_xy("..", p("f")),
        GitFileStatus::Other { code: "..".to_string(), path: p("f") }
    );
}

#[test]
fn porcelain_lines_missing_fields_are_not_porcelain() {
    assert!(porcelain_is_ok("1 .M N... 100644 100644 100644 abc def a.txt\n? new.txt\n# branch.oid x\n"));
    assert!(porcelain_is_ok(""));
    assert!(!porcelain_is_ok("1 .M\n"));
    assert!(!porcelain_is_ok("2 R. N... 100644 100644 100644 abc def\n"));
}
