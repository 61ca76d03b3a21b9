use zenops::config_files::ConfigFilePath;
use zenops::git::GitFileStatus;
use zenops::output::terminal::TerminalRenderer;
use zenops::output::{
    AppliedAction, DoctorCheck, DoctorSection, DoctorSeverity, Event, FileStatus, InitSummary,
    BootstrapSummary, JsonOutput, Output, PkgEntry, PkgEntryState, PkgInstallHints, PkgStatus,
    ResolvedConfigFilePath, Status, SymlinkStatus,
};
use zenops::safe_path::{SafeRelativePath, SafeRelativePathBuf};

fn home_path(rel: &str) -> ResolvedConfigFilePath {
    let srp = SafeRelativePath::from_relative_path(rel).unwrap();
    let full = if rel.is_empty() { "/home/test".to_string() } else { format!("/home/test/{rel}") };
    ResolvedConfigFilePath { path: ConfigFilePath::in_home(&srp), full }
}

fn zenops_path(rel: &str) -> ResolvedConfigFilePath {
    let srp = SafeRelativePath::from_relative_path(rel).unwrap();
    let base = "/home/test/.config/zenops";
    let full = if rel.is_empty() { base.to_string() } else { format!("{base}/{rel}") };
    ResolvedConfigFilePath { path: ConfigFilePath::Zenops(srp), full }
}

fn relpath(s: &str) -> SafeRelativePathBuf {
    SafeRelativePath::from_relative_path(s).unwrap()
}

fn render_events(events: Vec<Event>, color: bool, show_diffs: bool, show_clean: bool) -> String {
    let mut r = TerminalRenderer::new(color, show_diffs, show_clean);
    for e in events {
        r.push(e).unwrap();
    }
    r.finalize().unwrap();
    r.into_output()
}

fn render_status(status: Status, color: bool, show_diffs: bool) -> String {
    render_status_full(status, color, show_diffs, false)
}

fn render_status_full(status: Status, color: bool, show_diffs: bool, show_clean: bool) -> String {
    render_events(vec![Event::Status(status)], color, show_diffs, show_clean)
}

fn render_action(action: AppliedAction) -> String {
    render_events(vec![Event::AppliedAction(action)], false, false, false)
}

fn generated(cur: Option<&str>, want: &str, rel: &str, status: FileStatus) -> Status {
    Status::Generated {
        want_content: want.to_string(),
        cur_content: cur.map(String::from),
        path: home_path(rel),
        status,
    }
}

fn symlink(real: &str, sym: &str, status: SymlinkStatus) -> Status {
    Status::Symlink { real: home_path(real), symlink: home_path(sym), status }
}

fn pkg_missing(pkg: &str, install_command: Option<&str>) -> Status {
    Status::Pkg {
        pkg: pkg.to_string(),
        status: PkgStatus::Missing { install_command: install_command.map(String::from) },
    }
}

fn pkg_ok(pkg: &str) -> Status {
    Status::Pkg { pkg: pkg.to_string(), status: PkgStatus::Okay }
}

#[test]
fn output_generated_ok_emits_nothing() {
    let s = generated(Some("x\n"), "x\n", "a.toml", FileStatus::Okay);
    assert_eq!(render_status(s, false, false), "");
}

#[test]
fn tests_generated_ok_emits_nothing() {
    let s = generated(Some("x\n"), "x\n", "a.toml", FileStatus::Okay);
    assert_eq!(render_status(s, false, false), "");
}

#[test]
fn output_generated_ok_with_show_clean_renders_checkmark_line() {
    let s = generated(Some("x\n"), "x\n", "a.toml", FileStatus::Okay);
    assert_eq!(render_status_full(s, false, false, true), "✓  ~/a.toml  ok\n");
}

#[test]
fn tests_generated_ok_with_show_clean_renders_checkmark_line() {
    let s = generated(Some("x\n"), "x\n", "a.toml", FileStatus::Okay);
    assert_eq!(render_status_full(s, false, false, true), "✓  ~/a.toml  ok\n");
}

#[test]
fn output_generated_modified_renders_tilde_marker_and_modified_word() {
    let s = generated(Some("a\n"), "b\n", "a.toml", FileStatus::Modified);
    assert_eq!(render_status(s, false, false), "~  ~/a.toml  modified\n",);
}

#[test]
fn tests_generated_modified_renders_tilde_marker_and_modified_word() {
    let s = generated(Some("a\n"), "b\n", "a.toml", FileStatus::Modified);
    assert_eq!(render_status(s, false, false), "~  ~/a.toml  modified\n",);
}

#[test]
fn output_generated_new_renders_plus_marker_and_missing_word() {
    let s = generated(None, "x\n", "a.toml", FileStatus::New);
    assert_eq!(render_status(s, false, false), "+  ~/a.toml  missing\n");
}

#[test]
fn tests_generated_new_renders_plus_marker_and_missing_word() {
    let s = generated(None, "x\n", "a.toml", FileStatus::New);
    assert_eq!(render_status(s, false, false), "+  ~/a.toml  missing\n");
}

#[test]
fn tests_generated_modified_with_diff_renders_summary_then_blank_then_diff() {
    let s = generated(Some("a\n"), "b\n", "a.toml", FileStatus::Modified);
    let got = render_status(s, false, true);
    assert!(got.starts_with("~  ~/a.toml  modified\n"), "{got:?}");
    assert!(got.contains("\n--- ~/a.toml (current)\n+++ ~/a.toml (generated)\n"), "{got:?}",);
    assert!(got.contains("-a\n"), "{got:?}");
    assert!(got.contains("+b\n"), "{got:?}");
}

#[test]
fn tests_generated_new_with_diff_labels_dev_null() {
    let s = generated(None, "x\n", "a.toml", FileStatus::New);
    let got = render_status(s, false, true);
    assert!(got.starts_with("+  ~/a.toml  missing\n"), "{got:?}");
    assert!(got.contains("--- /dev/null\n+++ ~/a.toml (generated)\n"), "{got:?}",);
    assert!(got.contains("+x\n"), "{got:?}");
}

#[test]
fn tests_generated_with_diff_color_off_contains_no_ansi_escapes() {
    let s = generated(Some("a\n"), "b\n", "a.toml", FileStatus::Modified);
    let got = render_status(s, false, true);
    assert!(!got.contains('\x1b'), "unexpected ANSI escape: {got:?}");
}

#[test]
fn tests_generated_with_diff_color_on_emits_ansi_escapes() {
    let s = generated(Some("a\n"), "b\n", "a.toml", FileStatus::Modified);
    let got = render_status(s, true, true);
    assert!(got.contains("\x1b[31m-a\n\x1b[0m"), "{got:?}");
    assert!(got.contains("\x1b[32m+b\n\x1b[0m"), "{got:?}");
}

#[test]
fn tests_generated_empty_current_still_labels_as_current() {
    let s = generated(Some(""), "hi\n", "empty.toml", FileStatus::Modified);
    let got = render_status(s, false, true);
    assert!(got.contains("--- ~/empty.toml (current)\n"), "{got:?}");
}

#[test]
fn generated_diff_adds_newline_after_last_line_without_one() {
    let s = generated(Some("same\nold"), "same\nnew", "f", FileStatus::Modified);
    let got = render_status(s, false, true);
    assert_eq!(
        got,
        "~  ~/f  modified\n\n--- ~/f (current)\n+++ ~/f (generated)\n same\n-old\n+new\n"
    );
}

#[test]
fn output_symlink_ok_emits_nothing() {
    let s = symlink("src", "dst", SymlinkStatus::Okay);
    assert_eq!(render_status(s, false, false), "");
}

#[test]
fn tests_symlink_ok_emits_nothing() {
    let s = symlink("src", "dst", SymlinkStatus::Okay);
    assert_eq!(render_status(s, false, false), "");
}

#[test]
fn output_symlink_ok_with_show_clean_renders_checkmark_line() {
    let s = symlink("src", "dst", SymlinkStatus::Okay);
    assert_eq!(render_status_full(s, false, false, true), "✓  ~/dst → ~/src  ok\n",);
}

#[test]
fn tests_symlink_ok_with_show_clean_renders_checkmark_line() {
    let s = symlink("src", "dst", SymlinkStatus::Okay);
    assert_eq!(render_status_full(s, false, false, true), "✓  ~/dst → ~/src  ok\n",);
}

#[test]
fn output_symlink_wrong_link_renders_arrow_and_actual_target() {
    let s = symlink("src", "dst", SymlinkStatus::WrongLink("/other".to_string()));
    assert_eq!(render_status(s, false, false), "✗  ~/dst → ~/src  wrong target /other\n",);
}

#[test]
fn tests_symlink_wrong_link_renders_arrow_and_actual_target() {
    let s = symlink("src", "dst", SymlinkStatus::WrongLink("/other".to_string()));
    assert_eq!(render_status(s, false, false), "✗  ~/dst → ~/src  wrong target /other\n",);
}

#[test]
fn output_symlink_new_renders_plus_and_arrow() {
    assert_eq!(
        render_status(symlink("s", "d", SymlinkStatus::New), false, false),
        "+  ~/d → ~/s  missing\n",
    );
}

#[test]
fn tests_symlink_new_renders_plus_and_arrow() {
    assert_eq!(
        render_status(symlink("s", "d", SymlinkStatus::New), false, false),
        "+  ~/d → ~/s  missing\n",
    );
}

#[test]
fn output_symlink_is_file_renders_cross_and_description() {
    assert_eq!(
        render_status(symlink("s", "d", SymlinkStatus::IsFile), false, false),
        "✗  ~/d  is a file, expected symlink\n",
    );
}

#[test]
fn tests_symlink_is_file_renders_cross_and_description() {
    assert_eq!(
        render_status(symlink("s", "d", SymlinkStatus::IsFile), false, false),
        "✗  ~/d  is a file, expected symlink\n",
    );
}

#[test]
fn output_symlink_is_dir_renders_cross_and_description() {
    assert_eq!(
        render_status(symlink("s", "d", SymlinkStatus::IsDir), false, false),
        "✗  ~/d  is a dir, expected symlink\n",
    );
}

#[test]
fn tests_symlink_is_dir_renders_cross_and_description() {
    assert_eq!(
        render_status(symlink("s", "d", SymlinkStatus::IsDir), false, false),
        "✗  ~/d  is a dir, expected symlink\n",
    );
}

#[test]
fn symlink_is_other_renders_cross_and_description() {
    assert_eq!(
        render_status(symlink("s", "d", SymlinkStatus::IsOther), false, false),
        "✗  ~/d  is not a regular file, expected symlink\n",
    );
}

#[test]
fn output_symlink_real_missing_reports_source_path() {
    assert_eq!(
        render_status(symlink("s", "d", SymlinkStatus::RealPathIsMissing), false, false),
        "✗  ~/s  symlink source missing\n",
    );
}

#[test]
fn tests_symlink_real_missing_reports_source_path() {
    assert_eq!(
        render_status(symlink("s", "d", SymlinkStatus::RealPathIsMissing), false, false),
        "✗  ~/s  symlink source missing\n",
    );
}

#[test]
fn output_symlink_dst_dir_missing_reports_symlink_path() {
    assert_eq!(
        render_status(
            symlink("s", "d", SymlinkStatus::DstDirIsMissing { dir: home_path("") }),
            false,
            false,
        ),
        "✗  ~/d  parent directory missing\n",
    );
}

#[test]
fn tests_symlink_dst_dir_missing_reports_symlink_path() {
    assert_eq!(
        render_status(
            symlink("s", "d", SymlinkStatus::DstDirIsMissing { dir: home_path("") }),
            false,
            false,
        ),
        "✗  ~/d  parent directory missing\n",
    );
}

#[test]
fn output_git_variants_render_expected_lines() {
    let repo = zenops_path("");
    let cases: Vec<(GitFileStatus, &str)> = vec![
        (GitFileStatus::Modified(relpath("a.toml")), "M  ~/.config/zenops/a.toml  modified\n"),
        (GitFileStatus::Added(relpath("b.toml")), "A  ~/.config/zenops/b.toml  added\n"),
        (GitFileStatus::Deleted(relpath("c.toml")), "D  ~/.config/zenops/c.toml  deleted\n"),
        (GitFileStatus::Untracked(relpath("d.toml")), "?  ~/.config/zenops/d.toml  untracked\n"),
        (
            GitFileStatus::Other { code: "UU".to_string(), path: relpath("e.toml") },
            "!  ~/.config/zenops/e.toml  status UU\n",
        ),
    ];
    for (status, want) in cases {
        let s = Status::Git { repo: repo.clone(), status };
        assert_eq!(render_status(s, false, false), want);
    }
}

#[test]
fn tests_git_variants_render_expected_lines() {
    let repo = zenops_path("");
    let cases: Vec<(GitFileStatus, &str)> = vec![
        (GitFileStatus::Modified(relpath("a.toml")), "M  ~/.config/zenops/a.toml  modified\n"),
        (GitFileStatus::Added(relpath("b.toml")), "A  ~/.config/zenops/b.toml  added\n"),
        (GitFileStatus::Deleted(relpath("c.toml")), "D  ~/.config/zenops/c.toml  deleted\n"),
        (GitFileStatus::Untracked(relpath("d.toml")), "?  ~/.config/zenops/d.toml  untracked\n"),
        (
            GitFileStatus::Other { code: "UU".to_string(), path: relpath("e.toml") },
            "!  ~/.config/zenops/e.toml  status UU\n",
        ),
    ];
    for (status, want) in cases {
        let s = Status::Git { repo: repo.clone(), status };
        assert_eq!(render_status(s, false, false), want);
    }
}

#[test]
fn output_pkg_missing_with_install_command_includes_hint() {
    assert_eq!(
        render_status(pkg_missing("python", Some("brew install python")), false, false),
        "✗  python  missing — install: brew install python\n",
    );
}

#[test]
fn tests_pkg_missing_with_install_command_includes_hint() {
    assert_eq!(
        render_status(pkg_missing("python", Some("brew install python")), false, false),
        "✗  python  missing — install: brew install python\n",
    );
}

#[test]
fn output_pkg_missing_without_install_command_is_terse() {
    assert_eq!(render_status(pkg_missing("python", None), false, false), "✗  python  missing\n",);
}

#[test]
fn tests_pkg_missing_without_install_command_is_terse() {
    assert_eq!(render_status(pkg_missing("python", None), false, false), "✗  python  missing\n",);
}

#[test]
fn output_pkg_ok_without_show_clean_emits_nothing() {
    assert_eq!(render_status(pkg_ok("python"), false, false), "");
}

#[test]
fn tests_pkg_ok_without_show_clean_emits_nothing() {
    assert_eq!(render_status(pkg_ok("python"), false, false), "");
}

#[test]
fn output_pkg_ok_with_show_clean_renders_checkmark_line() {
    assert_eq!(render_status_full(pkg_ok("python"), false, false, true), "✓  python  ok\n",);
}

#[test]
fn tests_pkg_ok_with_show_clean_renders_checkmark_line() {
    assert_eq!(render_status_full(pkg_ok("python"), false, false, true), "✓  python  ok\n",);
}

#[test]
fn output_git_repo_clean_without_show_clean_emits_nothing() {
    let s = Status::GitRepoClean { repo: zenops_path("") };
    assert_eq!(render_status(s, false, false), "");
}

#[test]
fn tests_git_repo_clean_without_show_clean_emits_nothing() {
    let s = Status::GitRepoClean { repo: zenops_path("") };
    assert_eq!(render_status(s, false, false), "");
}

#[test]
fn output_git_repo_clean_with_show_clean_renders_checkmark_line() {
    let s = Status::GitRepoClean { repo: zenops_path("") };
    assert_eq!(render_status_full(s, false, false, true), "✓  ~/.config/zenops  clean\n",);
}

#[test]
fn tests_git_repo_clean_with_show_clean_renders_checkmark_line() {
    let s = Status::GitRepoClean { repo: zenops_path("") };
    assert_eq!(render_status_full(s, false, false, true), "✓  ~/.config/zenops  clean\n",);
}

#[test]
fn output_applied_actions_render_expected_lines() {
    assert_eq!(render_action(AppliedAction::UpdatedFile(home_path("a.toml"))), "✓  ~/a.toml  updated\n",);
    assert_eq!(render_action(AppliedAction::CreatedFile(home_path("a.toml"))), "✓  ~/a.toml  created\n",);
    assert_eq!(
        render_action(AppliedAction::CreatedSymlink { real: home_path("src"), symlink: home_path("dst") }),
        "✓  ~/dst → ~/src  linked\n",
    );
    assert_eq!(
        render_action(AppliedAction::ReplacedSymlink { real: home_path("src"), symlink: home_path("dst") }),
        "✓  ~/dst → ~/src  relinked\n",
    );
    assert_eq!(render_action(AppliedAction::CreatedDir(home_path("subdir"))), "✓  ~/subdir  mkdir\n",);
}

#[test]
fn tests_applied_actions_render_expected_lines() {
    assert_eq!(render_action(AppliedAction::UpdatedFile(home_path("a.toml"))), "✓  ~/a.toml  updated\n",);
    assert_eq!(render_action(AppliedAction::CreatedFile(home_path("a.toml"))), "✓  ~/a.toml  created\n",);
    assert_eq!(
        render_action(AppliedAction::CreatedSymlink { real: home_path("src"), symlink: home_path("dst") }),
        "✓  ~/dst → ~/src  linked\n",
    );
    assert_eq!(
        render_action(AppliedAction::ReplacedSymlink { real: home_path("src"), symlink: home_path("dst") }),
        "✓  ~/dst → ~/src  relinked\n",
    );
    assert_eq!(render_action(AppliedAction::CreatedDir(home_path("subdir"))), "✓  ~/subdir  mkdir\n",);
}

#[test]
fn output_multiple_lines_pad_path_column_to_widest() {
    let got = render_events(
        vec![
            Event::Status(pkg_missing("py", None)),
            Event::Status(generated(Some("a\n"), "b\n", "long/nested/path/file.toml", FileStatus::Modified)),
        ],
        false,
        false,
        false,
    );
    let wide = "~/long/nested/path/file.toml".chars().count();
    let short = "py".chars().count();
    let pad = wide - short;
    let expected = format!(
        "✗  py{spaces}  missing\n~  ~/long/nested/path/file.toml  modified\n",
        spaces = " ".repeat(pad),
    );
    assert_eq!(got, expected);
}

#[test]
fn tests_multiple_lines_pad_path_column_to_widest() {
    let got = render_events(
        vec![
            Event::Status(pkg_missing("py", None)),
            Event::Status(generated(Some("a\n"), "b\n", "long/nested/path/file.toml", FileStatus::Modified)),
        ],
        false,
        false,
        false,
    );
    let wide = "~/long/nested/path/file.toml".chars().count();
    let short = "py".chars().count();
    let pad = wide - short;
    let expected = format!(
        "✗  py{spaces}  missing\n~  ~/long/nested/path/file.toml  modified\n",
        spaces = " ".repeat(pad),
    );
    assert_eq!(got, expected);
}

#[test]
fn output_finalize_with_no_events_emits_nothing() {
    let mut r = TerminalRenderer::new(false, false, false);
    r.finalize().unwrap();
    assert_eq!(r.output(), "");
}

#[test]
fn tests_finalize_with_no_events_emits_nothing() {
    let mut r = TerminalRenderer::new(false, false, false);
    r.finalize().unwrap();
    assert_eq!(r.output(), "");
}

#[test]
fn output_finalize_is_idempotent() {
    let mut r = TerminalRenderer::new(false, false, false);
    r.push(Event::Status(pkg_missing("x", None))).unwrap();
    r.finalize().unwrap();
    r.finalize().unwrap();
    assert_eq!(r.output(), "✗  x  missing\n");
}

#[test]
fn tests_finalize_is_idempotent() {
    let mut r = TerminalRenderer::new(false, false, false);
    r.push(Event::Status(pkg_missing("x", None))).unwrap();
    r.finalize().unwrap();
    r.finalize().unwrap();
    assert_eq!(r.output(), "✗  x  missing\n");
}

#[test]
fn tests_color_on_wraps_marker_path_and_description_with_expected_escapes() {
    let s = generated(Some("a\n"), "b\n", "a.toml", FileStatus::Modified);
    let got = render_status(s, true, false);
    assert!(got.contains("\x1b[33m~\x1b[0m"), "{got:?}");
    assert!(got.contains("\x1b[2m~/a.toml\x1b[0m"), "{got:?}");
    assert!(got.contains("\x1b[33mmodified\x1b[0m"), "{got:?}");
}

#[test]
fn tests_color_on_pkg_missing_install_command_is_bold_yellow() {
    let got = render_status(pkg_missing("py", Some("brew install py")), true, false);
    assert!(got.contains("\x1b[1;33mbrew install py\x1b[0m"), "{got:?}",);
}

#[test]
fn tests_ok_description_is_green_with_color_on() {
    let s = generated(Some("x\n"), "x\n", "a.toml", FileStatus::Okay);
    let got = render_status_full(s, true, false, true);
    assert!(got.contains("\x1b[32m✓\x1b[0m"), "{got:?}");
    assert!(got.contains("\x1b[32mok\x1b[0m"), "{got:?}");
}

#[test]
fn output_clean_description_is_green_with_color_on() {
    let s = Status::GitRepoClean { repo: zenops_path("") };
    let got = render_status_full(s, true, false, true);
    assert!(got.contains("\x1b[32m✓\x1b[0m"), "{got:?}");
    assert!(got.contains("\x1b[32mclean\x1b[0m"), "{got:?}");
}

#[test]
fn tests_clean_description_is_green_with_color_on() {
    let s = Status::GitRepoClean { repo: zenops_path("") };
    let got = render_status_full(s, true, false, true);
    assert!(got.contains("\x1b[32m✓\x1b[0m"), "{got:?}");
    assert!(got.contains("\x1b[32mclean\x1b[0m"), "{got:?}");
}

#[test]
fn output_symlink_ok_splits_zenops_prefix_and_bolds_arrow() {
    let s = Status::Symlink {
        real: zenops_path("configs/helix/config.toml"),
        symlink: home_path(".config/helix/config.toml"),
        status: SymlinkStatus::Okay,
    };
    let got = render_status_full(s, true, false, true);
    assert!(got.contains("\x1b[2m~/.config/helix/config.toml\x1b[0m"), "{got:?}",);
    assert!(got.contains("\x1b[1m → \x1b[0m"), "{got:?}");
    assert!(got.contains("\x1b[2;38;5;248m~/.config/zenops\x1b[0m"), "{got:?}",);
    assert!(got.contains("/configs/helix/config.toml\x1b[0m"), "{got:?}");
    assert!(got.contains("\x1b[32mok\x1b[0m"), "{got:?}");
}

#[test]
fn tests_symlink_ok_splits_zenops_prefix_and_bolds_arrow() {
    let s = Status::Symlink {
        real: zenops_path("configs/helix/config.toml"),
        symlink: home_path(".config/helix/config.toml"),
        status: SymlinkStatus::Okay,
    };
    let got = render_status_full(s, true, false, true);
    assert!(got.contains("\x1b[2m~/.config/helix/config.toml\x1b[0m"), "{got:?}",);
    assert!(got.contains("\x1b[1m → \x1b[0m"), "{got:?}");
    assert!(got.contains("\x1b[2;38;5;248m~/.config/zenops\x1b[0m"), "{got:?}",);
    assert!(got.contains("/configs/helix/config.toml\x1b[0m"), "{got:?}");
    assert!(got.contains("\x1b[32mok\x1b[0m"), "{got:?}");
}

#[test]
fn output_git_row_splits_zenops_prefix() {
    let s = Status::Git { repo: zenops_path(""), status: GitFileStatus::Modified(relpath("configs/helix/config.toml")) };
    let got = render_status(s, true, false);
    assert!(got.contains("\x1b[2;38;5;248m~/.config/zenops\x1b[0m"), "{got:?}",);
    assert!(got.contains("/configs/helix/config.toml\x1b[0m"), "{got:?}");
    assert!(!got.contains("\x1b[2m/configs/helix/config.toml"), "tail should not be dim: {got:?}",);
}

#[test]
fn tests_git_row_splits_zenops_prefix() {
    let s = Status::Git { repo: zenops_path(""), status: GitFileStatus::Modified(relpath("configs/helix/config.toml")) };
    let got = render_status(s, true, false);
    assert!(got.contains("\x1b[2;38;5;248m~/.config/zenops\x1b[0m"), "{got:?}",);
    assert!(got.contains("/configs/helix/config.toml\x1b[0m"), "{got:?}");
    assert!(!got.contains("\x1b[2m/configs/helix/config.toml"), "tail should not be dim: {got:?}",);
}

fn pkg_entry_pkg(name: &str, state: PkgEntryState) -> PkgEntry {
    PkgEntry::Pkg {
        name: name.to_string(),
        key: name.to_string(),
        description: None,
        state,
        matched_detect: None,
        install_hints: PkgInstallHints::default(),
    }
}

fn render_pkg_entries(entries: Vec<PkgEntry>, color: bool) -> String {
    render_events(entries.into_iter().map(Event::PkgEntry).collect(), color, false, false)
}

#[test]
fn output_pkg_entries_pad_name_column_to_widest() {
    let got = render_pkg_entries(
        vec![pkg_entry_pkg("py", PkgEntryState::Missing), pkg_entry_pkg("starship", PkgEntryState::Installed)],
        false,
    );
    let lines: Vec<&str> = got.lines().collect();
    assert_eq!(lines[0], "✗ py      ", "{got:?}");
    assert_eq!(lines[1], "✓ starship", "{got:?}");
}

#[test]
fn tests_pkg_entries_pad_name_column_to_widest() {
    let got = render_pkg_entries(
        vec![pkg_entry_pkg("py", PkgEntryState::Missing), pkg_entry_pkg("starship", PkgEntryState::Installed)],
        false,
    );
    let lines: Vec<&str> = got.lines().collect();
    assert_eq!(lines[0], "✗ py      ", "{got:?}");
    assert_eq!(lines[1], "✓ starship", "{got:?}");
}

#[test]
fn tests_pkg_entry_disabled_uses_dash_marker() {
    let got = render_pkg_entries(vec![pkg_entry_pkg("ghost", PkgEntryState::Disabled)], false);
    assert!(got.starts_with("- ghost"), "{got:?}");
}

#[test]
fn output_pkg_entry_missing_with_brew_hint_renders_indented_hint_line() {
    let got = render_pkg_entries(
        vec![PkgEntry::Pkg {
            name: "foo".to_string(),
            key: "foo".to_string(),
            description: None,
            state: PkgEntryState::Missing,
            matched_detect: None,
            install_hints: PkgInstallHints { brew: vec!["foo-formula".into()] },
        }],
        false,
    );
    assert!(got.contains("✗ foo"), "{got:?}");
    assert!(got.contains("brew: foo-formula"), "{got:?}");
}

#[test]
fn tests_pkg_entry_missing_with_brew_hint_renders_indented_hint_line() {
    let got = render_pkg_entries(
        vec![PkgEntry::Pkg {
            name: "foo".to_string(),
            key: "foo".to_string(),
            description: None,
            state: PkgEntryState::Missing,
            matched_detect: None,
            install_hints: PkgInstallHints { brew: vec!["foo-formula".into()] },
        }],
        false,
    );
    assert!(got.contains("✗ foo"), "{got:?}");
    assert!(got.contains("brew: foo-formula"), "{got:?}");
}

#[test]
fn pkg_entry_with_description_and_detect_renders_exact_rows() {
    let got = render_pkg_entries(
        vec![PkgEntry::Pkg {
            name: "fd".to_string(),
            key: "fd".to_string(),
            description: Some("finder".into()),
            state: PkgEntryState::Missing,
            matched_detect: Some("which fd".into()),
            install_hints: PkgInstallHints { brew: vec!["fd".into(), "fd-extra".into()] },
        }],
        false,
    );
    assert_eq!(got, "✗ fd  finder\n      detect: which fd\n      brew: fd fd-extra\n");
}

#[test]
fn output_pkg_aggregate_install_renders_blank_line_then_footer() {
    let got = render_pkg_entries(
        vec![
            pkg_entry_pkg("foo", PkgEntryState::Missing),
            PkgEntry::AggregateInstall {
                pkg_manager: "brew".into(),
                command: "brew install foo".into(),
                packages: vec!["foo".into()],
            },
        ],
        false,
    );
    let lines: Vec<&str> = got.lines().collect();
    let footer_idx = lines.iter().position(|l| l.contains("To install all missing")).expect("expected footer line");
    assert_eq!(lines[footer_idx - 1], "", "{got:?}");
    assert!(lines[footer_idx].contains("via brew: brew install foo"), "{got:?}",);
}

#[test]
fn tests_pkg_aggregate_install_renders_blank_line_then_footer() {
    let got = render_pkg_entries(
        vec![
            pkg_entry_pkg("foo", PkgEntryState::Missing),
            PkgEntry::AggregateInstall {
                pkg_manager: "brew".into(),
                command: "brew install foo".into(),
                packages: vec!["foo".into()],
            },
        ],
        false,
    );
    let lines: Vec<&str> = got.lines().collect();
    let footer_idx = lines.iter().position(|l| l.contains("To install all missing")).expect("expected footer line");
    assert_eq!(lines[footer_idx - 1], "", "{got:?}");
    assert!(lines[footer_idx].contains("via brew: brew install foo"), "{got:?}",);
}

#[test]
fn output_pkg_no_manager_warning_renders_inline_before_pkg_block() {
    let got = render_pkg_entries(
        vec![
            PkgEntry::NoPackageManagerDetected { supported: vec!["brew".into()] },
            pkg_entry_pkg("foo", PkgEntryState::Missing),
        ],
        false,
    );
    let lines: Vec<&str> = got.lines().collect();
    assert!(lines[0].contains("no known package manager"), "{got:?}");
    assert!(lines[0].contains("Supported managers: brew"), "{got:?}");
    assert!(lines[1].contains("foo"), "{got:?}");
}

#[test]
fn tests_pkg_no_manager_warning_renders_inline_before_pkg_block() {
    let got = render_pkg_entries(
        vec![
            PkgEntry::NoPackageManagerDetected { supported: vec!["brew".into()] },
            pkg_entry_pkg("foo", PkgEntryState::Missing),
        ],
        false,
    );
    let lines: Vec<&str> = got.lines().collect();
    assert!(lines[0].contains("no known package manager"), "{got:?}");
    assert!(lines[0].contains("Supported managers: brew"), "{got:?}");
    assert!(lines[1].contains("foo"), "{got:?}");
}

fn render_doctor_checks(checks: Vec<DoctorCheck>, color: bool) -> String {
    render_events(checks.into_iter().map(Event::DoctorCheck).collect(), color, false, false)
}

fn doctor_check(
    section: DoctorSection,
    label: &str,
    severity: DoctorSeverity,
    value: &str,
    hint: Option<&str>,
) -> DoctorCheck {
    DoctorCheck::Check {
        section,
        label: label.to_string(),
        severity,
        value: value.to_string(),
        hint: hint.map(String::from),
        detail: Vec::new(),
    }
}

#[test]
fn output_doctor_check_groups_by_section_with_blank_separator() {
    let got = render_doctor_checks(
        vec![
            DoctorCheck::SectionHeader { section: DoctorSection::System },
            doctor_check(DoctorSection::System, "os:", DoctorSeverity::Info, "macos", None),
            DoctorCheck::SectionHeader { section: DoctorSection::Repo },
            doctor_check(DoctorSection::Repo, "git repo:", DoctorSeverity::Okay, "yes", None),
        ],
        false,
    );
    let want = "System\n  os:            macos\n\nConfig repo (~/.config/zenops)\n  git repo:      yes\n";
    assert_eq!(got, want, "{got:?}");
}

#[test]
fn tests_doctor_check_groups_by_section_with_blank_separator() {
    let got = render_doctor_checks(
        vec![
            DoctorCheck::SectionHeader { section: DoctorSection::System },
            doctor_check(DoctorSection::System, "os:", DoctorSeverity::Info, "macos", None),
            DoctorCheck::SectionHeader { section: DoctorSection::Repo },
            doctor_check(DoctorSection::Repo, "git repo:", DoctorSeverity::Okay, "yes", None),
        ],
        false,
    );
    let want = "System\n  os:            macos\n\nConfig repo (~/.config/zenops)\n  git repo:      yes\n";
    assert_eq!(got, want, "{got:?}");
}

#[test]
fn tests_doctor_check_with_hint_renders_hint_after_value() {
    let got = render_doctor_checks(
        vec![doctor_check(
            DoctorSection::System,
            "git:",
            DoctorSeverity::Bad,
            "not found on PATH",
            Some("install git"),
        )],
        false,
    );
    assert!(got.contains("git:"), "{got:?}");
    assert!(got.contains("not found on PATH"), "{got:?}");
    assert!(got.contains("install git"), "{got:?}");
}

#[test]
fn output_doctor_check_with_detail_indents_each_line_under_row() {
    let got = render_doctor_checks(
        vec![DoctorCheck::Check {
            section: DoctorSection::Config,
            label: "status:".to_string(),
            severity: DoctorSeverity::Bad,
            value: "parse error".into(),
            hint: None,
            detail: vec!["/path/to/config.toml".into(), "expected `]`".into()],
        }],
        false,
    );
    assert!(got.contains("    /path/to/config.toml\n"), "{got:?}");
    assert!(got.contains("    expected `]`\n"), "{got:?}");
}

#[test]
fn tests_doctor_check_with_detail_indents_each_line_under_row() {
    let got = render_doctor_checks(
        vec![DoctorCheck::Check {
            section: DoctorSection::Config,
            label: "status:".to_string(),
            severity: DoctorSeverity::Bad,
            value: "parse error".into(),
            hint: None,
            detail: vec!["/path/to/config.toml".into(), "expected `]`".into()],
        }],
        false,
    );
    assert!(got.contains("    /path/to/config.toml\n"), "{got:?}");
    assert!(got.contains("    expected `]`\n"), "{got:?}");
}

#[test]
fn doctor_check_colors_value_by_severity() {
    let got = render_doctor_checks(
        vec![doctor_check(DoctorSection::Shell, "zsh:", DoctorSeverity::Warn, "old", Some("upgrade"))],
        true,
    );
    assert_eq!(
        got,
        "\x1b[1mShell\x1b[0m\n  zsh:           \x1b[33mold\x1b[0m  \x1b[2mupgrade\x1b[0m\n"
    );
}

#[test]
fn output_init_summary_renders_summary_with_remote_shell_and_pkg_count() {
    let got = render_events(
        vec![Event::InitSummary(InitSummary {
            clone_path: "/home/test/.config/zenops".to_string(),
            remote: Some("git@example.com:cfg.git".into()),
            shell: Some("bash".into()),
            pkg_count: 12,
        })],
        false,
        false,
        false,
    );
    assert!(got.contains("Cloned into /home/test/.config/zenops"), "{got:?}",);
    assert!(got.contains("remote: git@example.com:cfg.git"), "{got:?}");
    assert!(got.contains("shell:  bash"), "{got:?}");
    assert!(got.contains("pkgs:   12"), "{got:?}");
    assert!(got.contains("Next: run `zenops apply`"), "{got:?}");
}

#[test]
fn tests_init_summary_renders_summary_with_remote_shell_and_pkg_count() {
    let got = render_events(
        vec![Event::InitSummary(InitSummary {
            clone_path: "/home/test/.config/zenops".to_string(),
            remote: Some("git@example.com:cfg.git".into()),
            shell: Some("bash".into()),
            pkg_count: 12,
        })],
        false,
        false,
        false,
    );
    assert!(got.contains("Cloned into /home/test/.config/zenops"), "{got:?}",);
    assert!(got.contains("remote: git@example.com:cfg.git"), "{got:?}");
    assert!(got.contains("shell:  bash"), "{got:?}");
    assert!(got.contains("pkgs:   12"), "{got:?}");
    assert!(got.contains("Next: run `zenops apply`"), "{got:?}");
}

#[test]
fn bootstrap_summary_renders_unset_fields() {
    let got = render_events(
        vec![Event::BootstrapSummary(BootstrapSummary {
            repo_path: "/h/.config/zenops".to_string(),
            shell: None,
            name: Some("Alice".into()),
            email: None,
        })],
        false,
        false,
        false,
    );
    assert_eq!(
        got,
        "Initialized fresh zenops repo at /h/.config/zenops\n  shell:  (none configured)\n  name:   Alice\n  email:  (not set)\nNext: edit config.toml, then run `zenops apply`.\n"
    );
}

#[test]
fn output_terminal_renderer_flushes_status_block_before_pkg_block() {
    let got = render_events(
        vec![
            Event::Status(pkg_missing("py", None)),
            Event::PkgEntry(pkg_entry_pkg("foo", PkgEntryState::Missing)),
        ],
        false,
        false,
        false,
    );
    let lines: Vec<&str> = got.lines().collect();
    assert!(lines[0].starts_with("✗  py"), "{got:?}");
    assert!(lines[1].starts_with("✗ foo"), "{got:?}");
}

#[test]
fn tests_terminal_renderer_flushes_status_block_before_pkg_block() {
    let got = render_events(
        vec![
            Event::Status(pkg_missing("py", None)),
            Event::PkgEntry(pkg_entry_pkg("foo", PkgEntryState::Missing)),
        ],
        false,
        false,
        false,
    );
    let lines: Vec<&str> = got.lines().collect();
    assert!(lines[0].starts_with("✗  py"), "{got:?}");
    assert!(lines[1].starts_with("✗ foo"), "{got:?}");
}

#[test]
fn output_color_on_pkg_missing_install_command_is_bold_yellow() {
    let got = render_status(pkg_missing("py", Some("brew install py")), true, false);
    assert!(got.contains("\x1b[1;33mbrew install py\x1b[0m"), "{got:?}",);
}

#[test]
fn output_pkg_entry_disabled_uses_dash_marker() {
    let got = render_pkg_entries(vec![pkg_entry_pkg("ghost", PkgEntryState::Disabled)], false);
    assert!(got.starts_with("- ghost"), "{got:?}");
}

#[test]
fn output_doctor_check_with_hint_renders_hint_after_value() {
    let got = render_doctor_checks(
        vec![doctor_check(DoctorSection::System, "git:", DoctorSeverity::Bad, "not found on PATH", Some("install git"))],
        false,
    );
    assert!(got.contains("git:"), "{got:?}");
    assert!(got.contains("not found on PATH"), "{got:?}");
    assert!(got.contains("install git"), "{got:?}");
}

fn strip_ansi(s: &str) -> String {
    let mut out = String::new();
    let mut in_esc = false;
    for c in s.chars() {
        if in_esc {
            if c == 'm' {
                in_esc = false;
            }
            continue;
        }
        if c == '\x1b' {
            in_esc = true;
            continue;
        }
        out.push(c);
    }
    out
}

fn check_split_path_padding() {
    let got = render_events(
        vec![
            Event::Status(Status::Git { repo: zenops_path(""), status: GitFileStatus::Modified(relpath("a.toml")) }),
            Event::Status(generated(Some("a\n"), "b\n", "long/nested/path/file.toml", FileStatus::Modified)),
        ],
        true,
        false,
        false,
    );
    let stripped = strip_ansi(&got);
    let lines: Vec<&str> = stripped.lines().collect();
    assert_eq!(lines.len(), 2, "{stripped:?}");
    let short_visible = "~/.config/zenops/a.toml".chars().count();
    let long_visible = "~/long/nested/path/file.toml".chars().count();
    let pad = long_visible - short_visible;
    let expected_short = format!("M  ~/.config/zenops/a.toml{}  modified", " ".repeat(pad));
    let expected_long = "~  ~/long/nested/path/file.toml  modified";
    assert_eq!(lines[0], expected_short, "{stripped:?}");
    assert_eq!(lines[1], expected_long, "{stripped:?}");
}

#[test]
fn output_path_column_padding_matches_visible_width_for_split_paths() {
    check_split_path_padding();
}

#[test]
fn tests_path_column_padding_matches_visible_width_for_split_paths() {
    check_split_path_padding();
}

fn json_text_for_doctor_check(check: DoctorCheck) -> Option<String> {
    let mut out = JsonOutput::new();
    out.push_encoded(&Event::DoctorCheck(check), "{\"event\":\"doctor_check\"}");
    let s = out.take();
    if s.is_empty() { None } else { Some(s) }
}

#[test]
fn output_json_doctor_check_section_header_is_skipped() {
    let v = json_text_for_doctor_check(DoctorCheck::SectionHeader { section: DoctorSection::Packages });
    assert!(v.is_none(), "section header should not produce a JSON line, got: {v:?}");
}

#[test]
fn tests_json_doctor_check_section_header_is_skipped() {
    let v = json_text_for_doctor_check(DoctorCheck::SectionHeader { section: DoctorSection::Packages });
    assert!(v.is_none(), "section header should not produce a JSON line, got: {v:?}");
}

#[test]
fn json_output_frames_each_event_as_one_line() {
    let mut out = JsonOutput::new();
    out.push_encoded(&Event::Status(pkg_missing("python", None)), "{\"a\":1}");
    out.push_encoded(&Event::DoctorCheck(DoctorCheck::SectionHeader { section: DoctorSection::User }), "{\"b\":2}");
    out.push_encoded(&Event::Status(pkg_ok("rg")), "{\"c\":3}");
    assert!(JsonOutput::wants(&Event::Status(pkg_ok("rg"))));
    assert!(!JsonOutput::wants(&Event::DoctorCheck(DoctorCheck::SectionHeader { section: DoctorSection::User })));
    assert_eq!(out.take(), "{\"a\":1}\n{\"c\":3}\n");
    assert_eq!(out.take(), "");
}
