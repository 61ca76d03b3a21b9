use std::collections::VecDeque;
use zenops::ansi::{color_code, color_reset};
use zenops::config_files::{diff_hunks, ConfigFilePath, DiffOp};
use zenops::error::Error;
use zenops::line_prompter::{LineOutcome, LinePrompter};
use zenops::output::ResolvedConfigFilePath;
use zenops::prompt::{
    commit_message_step, parse_change_answer, parse_pre_apply_input, render_change, render_new_file,
    render_single_hunk, DryRunPrompter, Hunk, PendingChange, PreApplyAnswer, PreApplyDecision,
    Prompter, YesPrompter,
};
use zenops::safe_path::SafeRelativePath;

fn home_path(rel: &str) -> ResolvedConfigFilePath {
    let srp = SafeRelativePath::from_relative_path(rel).unwrap();
    ResolvedConfigFilePath { path: ConfigFilePath::in_home(&srp), full: format!("/home/test/{rel}") }
}

fn render_to_string(change: PendingChange<'_>, color: bool) -> String {
    render_change(&change, color)
}

fn first_hunk(old: &str, new: &str) -> Hunk {
    let groups = diff_hunks(old, new);
    Hunk::new(old, new, groups[0].clone()).unwrap()
}

#[test]
fn render_new_file_emits_plus_prefix_and_missing_newline_marker() {
    assert_eq!(render_new_file("alpha\nbeta", false), "+alpha\n+beta\n\\ No newline at end of file\n",);
}

#[test]
fn render_new_file_skips_marker_when_content_ends_in_newline() {
    assert_eq!(render_new_file("alpha\nbeta\n", false), "+alpha\n+beta\n");
}

#[test]
fn render_new_file_empty_content_emits_nothing() {
    assert!(render_new_file("", false).is_empty());
}

#[test]
fn render_new_file_colors_each_line_green() {
    assert_eq!(render_new_file("x\n", true), "\x1b[32m+x\x1b[0m\n");
}

#[test]
fn render_change_create_file_writes_prompt_and_body() {
    let p = home_path("alpha.toml");
    assert_eq!(
        render_to_string(PendingChange::CreateFile { path: &p, content: "x\n" }, false),
        "Create ~/alpha.toml?\n+x\n",
    );
}

#[test]
fn render_change_create_symlink_writes_single_line() {
    let real = home_path("src.txt");
    let symlink = home_path("dst.txt");
    assert_eq!(
        render_to_string(PendingChange::CreateSymlink { real: &real, symlink: &symlink }, false),
        "Create symlink ~/dst.txt -> ~/src.txt?\n",
    );
}

#[test]
fn render_change_create_symlink_with_parent_mentions_parent_dir() {
    let real = home_path("src.txt");
    let symlink = home_path("sub/dst.txt");
    let parent = home_path("sub");
    assert_eq!(
        render_to_string(
            PendingChange::CreateSymlinkWithParent { real: &real, symlink: &symlink, parent: &parent },
            false,
        ),
        "Create symlink ~/sub/dst.txt -> ~/src.txt? (will also create directory ~/sub)\n",
    );
}

#[test]
fn render_single_hunk_emits_unified_diff_header_and_markers() {
    let old = "a\nb\nc\n";
    let new = "a\nB\nc\n";
    let groups = diff_hunks(old, new);
    assert_eq!(groups.len(), 1);
    let got = render_single_hunk(&Hunk::new(old, new, groups[0].clone()).unwrap(), false);
    assert!(got.starts_with("@@ -1,3 +1,3 @@\n"), "header wrong: {got:?}",);
    assert!(got.contains(" a\n"), "context before missing: {got:?}");
    assert!(got.contains("-b\n"), "delete line missing: {got:?}");
    assert!(got.contains("+B\n"), "insert line missing: {got:?}");
    assert!(got.contains(" c\n"), "context after missing: {got:?}");
}

#[test]
fn render_single_hunk_uses_ansi_colors_when_enabled() {
    let got = render_single_hunk(&first_hunk("a\n", "b\n"), true);
    assert!(got.contains("\x1b[36m@@"), "cyan header missing: {got:?}");
    assert!(got.contains("\x1b[31m-a"), "red delete missing: {got:?}");
    assert!(got.contains("\x1b[32m+b"), "green insert missing: {got:?}");
    assert!(got.contains("\x1b[0m"), "reset missing: {got:?}");
}

#[test]
fn render_single_hunk_marks_missing_trailing_newline() {
    let got = render_single_hunk(&first_hunk("a\n", "a"), false);
    assert!(got.contains("\\ No newline at end of file"), "missing-newline marker not emitted: {got:?}",);
    assert_eq!(got, "@@ -1,1 +1,1 @@\n-a\n+a\n\n\\ No newline at end of file\n");
}

#[test]
fn hunk_new_rejects_ops_outside_the_lines() {
    assert!(Hunk::new("a\n", "b\n", vec![]).is_none());
    assert!(Hunk::new("a\n", "b\n", vec![DiffOp::Equal { old_index: 1, new_index: 0, len: 1 }]).is_none());
}

#[test]
fn color_helpers_return_empty_when_disabled() {
    assert_eq!(color_code(false, "\x1b[36m"), "");
    assert_eq!(color_reset(false), "");
}

#[test]
fn color_helpers_return_codes_when_enabled() {
    assert_eq!(color_code(true, "\x1b[36m"), "\x1b[36m");
    assert_eq!(color_reset(true), "\x1b[0m");
}

#[test]
fn render_change_replace_wrong_symlink_includes_current_target() {
    let real = home_path("src.txt");
    let symlink = home_path("dst.txt");
    assert_eq!(
        render_to_string(
            PendingChange::ReplaceWrongSymlink { real: &real, symlink: &symlink, current_target: "/somewhere/else" },
            false,
        ),
        "Replace symlink ~/dst.txt: currently -> /somewhere/else -> ~/src.txt?\n",
    );
}

#[test]
fn render_change_update_file_hunk_writes_header_and_diff() {
    let p = home_path("alpha.toml");
    let hunk = first_hunk("a\nb\nc\n", "a\nB\nc\n");
    let got = render_change(&PendingChange::UpdateFileHunk { path: &p, index: 1, total: 1, hunk: &hunk }, false);
    assert!(got.starts_with("Update ~/alpha.toml — hunk 1/1?\n"), "header wrong: {got:?}",);
    assert!(got.contains("@@ -1,3 +1,3 @@"));
    assert!(got.contains("-b\n"));
    assert!(got.contains("+B\n"));
}

#[test]
fn parse_pre_apply_input_recognizes_commit() {
    assert_eq!(parse_pre_apply_input("c"), Some(PreApplyAnswer::Commit));
    assert_eq!(parse_pre_apply_input("commit"), Some(PreApplyAnswer::Commit));
    assert_eq!(parse_pre_apply_input("  COMMIT \n"), Some(PreApplyAnswer::Commit),);
}

#[test]
fn parse_pre_apply_input_recognizes_continue() {
    assert_eq!(parse_pre_apply_input(""), Some(PreApplyAnswer::Continue));
    assert_eq!(parse_pre_apply_input("y"), Some(PreApplyAnswer::Continue));
    assert_eq!(parse_pre_apply_input("yes"), Some(PreApplyAnswer::Continue));
    assert_eq!(parse_pre_apply_input(" YES "), Some(PreApplyAnswer::Continue),);
}

#[test]
fn parse_pre_apply_input_recognizes_abort() {
    assert_eq!(parse_pre_apply_input("n"), Some(PreApplyAnswer::Abort));
    assert_eq!(parse_pre_apply_input("no"), Some(PreApplyAnswer::Abort));
    assert_eq!(parse_pre_apply_input("abort"), Some(PreApplyAnswer::Abort),);
}

#[test]
fn parse_pre_apply_input_returns_none_for_garbage() {
    assert_eq!(parse_pre_apply_input("maybe"), None);
    assert_eq!(parse_pre_apply_input("?"), None);
}

#[test]
fn parse_change_answer_defaults_to_yes() {
    assert_eq!(parse_change_answer(""), Some(true));
    assert_eq!(parse_change_answer(" Y "), Some(true));
    assert_eq!(parse_change_answer("no"), Some(false));
    assert_eq!(parse_change_answer("later"), None);
}

struct ScriptedPrompter {
    scripted: VecDeque<LineOutcome>,
    warnings: Vec<String>,
}

impl ScriptedPrompter {
    fn new(outcomes: Vec<LineOutcome>) -> Self {
        Self { scripted: outcomes.into(), warnings: Vec::new() }
    }
}

impl LinePrompter for ScriptedPrompter {
    fn read_line(&mut self, _prompt: &str) -> std::io::Result<LineOutcome> {
        Ok(self.scripted.pop_front().expect("ScriptedPrompter ran out of outcomes"))
    }

    fn writeln(&mut self, msg: &str) -> std::io::Result<()> {
        self.warnings.push(msg.to_string());
        Ok(())
    }
}

/// Ask for a commit message until a non-blank one is given.
fn read_commit_message(prompter: &mut ScriptedPrompter) -> Result<String, Error> {
    loop {
        let outcome = prompter.read_line("Commit message: ");
        match commit_message_step(outcome)? {
            Some(m) => return Ok(m),
            None => prompter.writeln("Commit message cannot be empty.").map_err(Error::PromptRead)?,
        }
    }
}

#[test]
fn read_commit_message_returns_trimmed_line_on_happy_path() {
    let mut p = ScriptedPrompter::new(vec![LineOutcome::Line("  hello world  ".into())]);
    let got = read_commit_message(&mut p).unwrap();
    assert_eq!(got, "hello world");
    assert!(p.warnings.is_empty());
}

#[test]
fn read_commit_message_retries_on_empty_then_accepts_real_message() {
    let mut p = ScriptedPrompter::new(vec![
        LineOutcome::Line("".into()),
        LineOutcome::Line("   ".into()),
        LineOutcome::Line("real message".into()),
    ]);
    let got = read_commit_message(&mut p).unwrap();
    assert_eq!(got, "real message");
    assert_eq!(p.warnings.len(), 2);
    assert!(p.warnings[0].contains("cannot be empty"));
}

#[test]
fn read_commit_message_eof_returns_unexpected_eof_error() {
    let mut p = ScriptedPrompter::new(vec![LineOutcome::Eof]);
    let err = read_commit_message(&mut p).unwrap_err();
    match err {
        Error::PromptRead(io_err) => {
            assert_eq!(io_err.kind(), std::io::ErrorKind::UnexpectedEof);
        }
        other => panic!("expected PromptRead, got {other:?}"),
    }
}

#[test]
fn read_commit_message_interrupted_returns_prompt_interrupted() {
    let mut p = ScriptedPrompter::new(vec![LineOutcome::Interrupted]);
    let err = read_commit_message(&mut p).unwrap_err();
    assert!(matches!(err, Error::PromptInterrupted));
}

#[test]
fn yes_prompter_accepts_every_change_and_continues() {
    let mut p = YesPrompter;
    let real = home_path("src.txt");
    let symlink = home_path("dst.txt");
    assert!(p.confirm(PendingChange::CreateSymlink { real: &real, symlink: &symlink }).unwrap());
    assert_eq!(p.confirm_pre_apply().unwrap(), PreApplyDecision::Continue);
}

#[test]
fn dry_run_prompter_shows_change_and_declines() {
    let mut p = DryRunPrompter::new(false);
    let real = home_path("src.txt");
    let symlink = home_path("dst.txt");
    assert!(!p.confirm(PendingChange::CreateSymlink { real: &real, symlink: &symlink }).unwrap());
    assert_eq!(p.output(), "Create symlink ~/dst.txt -> ~/src.txt?\n[Y/n] (dry-run: skipping)\n");
    assert_eq!(p.confirm_pre_apply().unwrap(), PreApplyDecision::Continue);
}
