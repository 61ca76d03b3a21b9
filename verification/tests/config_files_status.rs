use zenops::config_files::{
    apply_decision, apply_step, diff_hunks, entry_status, hunk_outcome, hunks_fit, ApplyAction, ApplyStep, ConfigFileDirs, ConfigFilePath, ConfigFileSource, ConfigFiles, PathFacts,
    ResolvedFileSource, SymlinkInfo,
};
use zenops::output::{FileStatus, ResolvedConfigFilePath, Status, SymlinkStatus};
use zenops::safe_path::SafeRelativePath;

fn home(rel: &str) -> ConfigFilePath {
    ConfigFilePath::in_home(&SafeRelativePath::from_relative_path(rel).unwrap())
}

fn at(rel: &str) -> ResolvedConfigFilePath {
    ResolvedConfigFilePath { path: home(rel), full: format!("/home/u/{rel}") }
}

#[test]
fn generated_file_status_compares_contents() {
    let src = ResolvedFileSource::Generated("a\n".to_string());
    let st = entry_status(at(".bashrc"), &src, PathFacts::Generated { current: None });
    assert!(matches!(st, Status::Generated { status: FileStatus::New, cur_content: None, .. }));
    let st = entry_status(at(".bashrc"), &src, PathFacts::Generated { current: Some("a\n".to_string()) });
    assert!(matches!(st, Status::Generated { status: FileStatus::Okay, .. }));
    let st = entry_status(at(".bashrc"), &src, PathFacts::Generated { current: Some("b\n".to_string()) });
    assert!(matches!(&st, Status::Generated { status: FileStatus::Modified, cur_content: Some(c), .. } if c == "b\n"));
    assert_eq!(apply_step(&st), ApplyStep::UpdateFile);
}

#[test]
fn symlink_status_follows_the_link() {
    let src = ResolvedFileSource::SymlinkFrom { full: "/home/u/.config/zenops/configs/x".to_string(), rel: home("x") };
    let links = |t: &str, real_exists: bool| PathFacts::Symlink {
        info: SymlinkInfo::LinksTo(t.to_string()),
        real_exists,
        parent_exists: Some(true),
    };
    let st = entry_status(at(".x"), &src, links("/home/u/.config/zenops/configs/x", true));
    assert!(matches!(st, Status::Symlink { status: SymlinkStatus::Okay, .. }));
    assert_eq!(apply_step(&st), ApplyStep::Nothing);
    let st = entry_status(at(".x"), &src, links("/home/u/.config/zenops/configs/x", false));
    assert!(matches!(st, Status::Symlink { status: SymlinkStatus::RealPathIsMissing, .. }));
    assert_eq!(apply_step(&st), ApplyStep::Unsupported);
    let st = entry_status(at(".x"), &src, links("/elsewhere", true));
    assert!(matches!(&st, Status::Symlink { status: SymlinkStatus::WrongLink(w), .. } if w == "/elsewhere"));
    assert_eq!(apply_step(&st), ApplyStep::ReplaceWrongSymlink);
}

#[test]
fn missing_symlink_is_new_or_needs_its_directory() {
    let src = ResolvedFileSource::SymlinkFrom { full: "/z/c".to_string(), rel: home("c") };
    let missing = |parent: Option<bool>| PathFacts::Symlink { info: SymlinkInfo::NotFound, real_exists: true, parent_exists: parent };
    let st = entry_status(at("dir/c"), &src, missing(Some(true)));
    assert!(matches!(st, Status::Symlink { status: SymlinkStatus::New, .. }));
    assert_eq!(apply_step(&st), ApplyStep::CreateSymlink);
    let st = entry_status(at("dir/c"), &src, missing(Some(false)));
    match &st {
        Status::Symlink { status: SymlinkStatus::DstDirIsMissing { dir }, .. } => assert_eq!(dir.full, "/home/u/dir"),
        other => panic!("unexpected {other:?}"),
    }
    assert_eq!(apply_step(&st), ApplyStep::CreateSymlinkWithParent);
}

#[test]
fn a_file_or_directory_in_the_way_is_refused() {
    let src = ResolvedFileSource::SymlinkFrom { full: "/z/c".to_string(), rel: home("c") };
    let facts = |info| PathFacts::Symlink { info, real_exists: true, parent_exists: Some(true) };
    assert_eq!(apply_step(&entry_status(at("c"), &src, facts(SymlinkInfo::NotSymlinkIsFile))), ApplyStep::RefuseFile);
    assert_eq!(apply_step(&entry_status(at("c"), &src, facts(SymlinkInfo::NotSymlinkIsDir))), ApplyStep::RefuseDir);
}

#[test]
fn registry_keeps_first_position_and_last_value() {
    let dirs = ConfigFileDirs::load("/home/u".to_string());
    let mut files = ConfigFiles::new(&dirs);
    files.add(home(".a"), ConfigFileSource::Generated("1".to_string()));
    files.add(home(".b"), ConfigFileSource::SymlinkFrom(ConfigFilePath::Zenops(SafeRelativePath::from_relative_path("configs/b").unwrap())));
    files.add(home(".a"), ConfigFileSource::Generated("2".to_string()));
    assert_eq!(files.len(), 2);
    let (full, entry) = files.entry(0);
    assert_eq!(full, "/home/u/.a");
    assert_eq!(entry.src, ResolvedFileSource::Generated("2".to_string()));
    let (_, b) = files.entry(1);
    assert_eq!(b.src, ResolvedFileSource::SymlinkFrom { full: "/home/u/.config/zenops/configs/b".to_string(), rel: ConfigFilePath::Zenops(SafeRelativePath::from_relative_path("configs/b").unwrap()) });
    let statuses = files.check_status(vec![
        PathFacts::Generated { current: Some("2".to_string()) },
        PathFacts::Symlink { info: SymlinkInfo::NotFound, real_exists: true, parent_exists: Some(true) },
    ]);
    assert!(matches!(statuses[0], Status::Generated { status: FileStatus::Okay, .. }));
    assert!(matches!(statuses[1], Status::Symlink { status: SymlinkStatus::New, .. }));
}

#[test]
fn a_wrong_symlink_is_replaced_only_when_approved() {
    assert_eq!(apply_decision(ApplyStep::ReplaceWrongSymlink, &[true]), ApplyAction::ReplaceSymlink);
    assert_eq!(apply_decision(ApplyStep::ReplaceWrongSymlink, &[false]), ApplyAction::Skip);
}

#[test]
fn apply_decisions_follow_the_answers() {
    assert_eq!(apply_decision(ApplyStep::Nothing, &[]), ApplyAction::Skip);
    assert_eq!(apply_decision(ApplyStep::CreateFile, &[true]), ApplyAction::CreateFile);
    assert_eq!(apply_decision(ApplyStep::CreateFile, &[false]), ApplyAction::Skip);
    assert_eq!(apply_decision(ApplyStep::UpdateFile, &[false, true]), ApplyAction::UpdateFile);
    assert_eq!(apply_decision(ApplyStep::UpdateFile, &[false, false]), ApplyAction::Skip);
    assert_eq!(apply_decision(ApplyStep::CreateSymlink, &[true]), ApplyAction::CreateSymlink);
    assert_eq!(apply_decision(ApplyStep::CreateSymlinkWithParent, &[true]), ApplyAction::CreateDirAndSymlink);
    assert_eq!(apply_decision(ApplyStep::RefuseFile, &[true]), ApplyAction::RefuseFile);
    assert_eq!(apply_decision(ApplyStep::RefuseDir, &[]), ApplyAction::RefuseDir);
    assert_eq!(apply_decision(ApplyStep::Unsupported, &[true]), ApplyAction::Unsupported);
}

#[test]
fn approving_every_hunk_writes_the_generated_text() {
    let cur = "a\nb\nc\nd\ne\nf\ng\nh\ni\nj\n";
    let want = "a\nB\nc\nd\ne\nf\ng\nh\ni\nJ\n";
    let groups = diff_hunks(cur, want);
    assert_eq!(groups.len(), 2);
    assert!(hunks_fit(cur, want, &groups));
    assert_eq!(hunk_outcome(cur, want, &groups, &[true, true]).as_deref(), Some(want));
    assert_eq!(hunk_outcome(cur, want, &groups, &[false, false]), None);
    assert_eq!(
        hunk_outcome(cur, want, &groups, &[true, false]).as_deref(),
        Some("a\nB\nc\nd\ne\nf\ng\nh\ni\nj\n")
    );
}
