use zenops::cli::{dirty_repo_gate, prompter_kind, DirtyRepoGate, PrompterKind};
use zenops::git::{commit_all_and_push_args, has_uncommitted_changes, pre_apply_diff_args, pre_apply_status_args, GitCmd};
use zenops::init::{clone_summary, git_read_value, preflight_bootstrap, preflight_clone, ClonePreflight, InitError, RepoDirState};
use zenops::pkg::Shell;
use zenops::safe_path::SafeRelativePath;
use zenops::{Args, ColorChoice, Cmd};

fn strings(xs: &[&str]) -> Vec<String> {
    xs.iter().map(|s| s.to_string()).collect()
}

#[test]
fn repo_commands_pass_their_arguments_through() {
    let files = vec![SafeRelativePath::from_relative_path("a.toml").unwrap()];
    assert_eq!(GitCmd::Status { files: files.clone() }.args(), strings(&["status", "--", "a.toml"]));
    assert_eq!(GitCmd::Add { files: Vec::new() }.args(), strings(&["add", "--"]));
    assert_eq!(GitCmd::Pull { rebase: None }.args(), strings(&["pull"]));
    assert_eq!(GitCmd::Pull { rebase: Some(String::new()) }.args(), strings(&["pull", "--rebase"]));
    assert_eq!(GitCmd::Pull { rebase: Some("merges".to_string()) }.args(), strings(&["pull", "--rebase=merges"]));
    assert_eq!(
        GitCmd::Commit { all: true, message: Some("msg".to_string()) }.args(),
        strings(&["commit", "-a", "-m", "msg"])
    );
    assert_eq!(GitCmd::Commit { all: false, message: None }.args(), strings(&["commit"]));
    assert_eq!(GitCmd::Push {}.args(), strings(&["push"]));
}

#[test]
fn pre_apply_summary_commands_follow_the_color_choice() {
    assert_eq!(pre_apply_status_args(true), strings(&["-c", "color.status=always", "status", "-s"]));
    assert_eq!(pre_apply_status_args(false), strings(&["-c", "color.status=never", "status", "-s"]));
    assert_eq!(pre_apply_diff_args(true), strings(&["diff", "HEAD", "--color=always"]));
    assert_eq!(pre_apply_diff_args(false), strings(&["diff", "HEAD", "--color=never"]));
}

#[test]
fn commit_and_push_stages_commits_and_pushes() {
    assert_eq!(
        commit_all_and_push_args("wip"),
        vec![strings(&["add", "-A"]), strings(&["commit", "-m", "wip"]), strings(&["push"])]
    );
    assert!(has_uncommitted_changes(" M a.toml\n"));
    assert!(!has_uncommitted_changes(""));
}

#[test]
fn clone_needs_a_missing_or_empty_directory() {
    assert_eq!(preflight_clone("/z", RepoDirState::Missing), Ok(ClonePreflight::CreateParent));
    assert_eq!(preflight_clone("/z", RepoDirState::Empty), Ok(ClonePreflight::RemoveEmptyDir));
    assert_eq!(preflight_clone("/z", RepoDirState::NotEmpty), Err(InitError::DirNotEmpty("/z".to_string())));
}

#[test]
fn bootstrap_needs_no_directory_at_all() {
    assert_eq!(preflight_bootstrap("/z", false, false), Ok(()));
    assert_eq!(preflight_bootstrap("/z", true, true), Err(InitError::GitDirExists("/z".to_string())));
    assert_eq!(preflight_bootstrap("/z", true, false), Err(InitError::DirExists("/z".to_string())));
}

#[test]
fn clone_summary_trims_the_remote_and_names_the_shell() {
    let s = clone_summary("/z", Some("git@x:y.git\n"), Some(Shell::Zsh), 4);
    assert_eq!(s.clone_path, "/z");
    assert_eq!(s.remote.as_deref(), Some("git@x:y.git"));
    assert_eq!(s.shell.as_deref(), Some("zsh"));
    assert_eq!(s.pkg_count, 4);
    assert_eq!(clone_summary("/z", Some("  \n"), None, 0).remote, None);
    assert_eq!(git_read_value(Some(" Ada \n")).as_deref(), Some("Ada"));
    assert_eq!(git_read_value(None), None);
}

#[test]
fn dry_run_wins_then_yes_then_the_terminal() {
    assert_eq!(prompter_kind(true, true, false), Ok(PrompterKind::DryRun));
    assert_eq!(prompter_kind(true, false, false), Ok(PrompterKind::Yes));
    assert_eq!(prompter_kind(false, false, true), Ok(PrompterKind::Terminal));
    assert!(prompter_kind(false, false, false).is_err());
}

#[test]
fn a_dirty_repo_stops_yes_without_allow_dirty() {
    assert_eq!(dirty_repo_gate(false, true, true, false), DirtyRepoGate::Proceed);
    assert_eq!(dirty_repo_gate(true, false, true, false), DirtyRepoGate::Proceed);
    assert_eq!(dirty_repo_gate(true, true, true, true), DirtyRepoGate::Proceed);
    assert_eq!(dirty_repo_gate(true, true, true, false), DirtyRepoGate::Refuse);
    assert_eq!(dirty_repo_gate(true, true, false, false), DirtyRepoGate::Ask);
}

#[test]
fn only_apply_with_pull_config_pulls_the_repo() {
    let args = Args { color: ColorChoice::Auto, stdin_is_terminal: false };
    let apply = |pull_config| Cmd::Apply { pull_config, yes: false, dry_run: false, allow_dirty: false };
    assert!(apply(true).should_update_self(&args));
    assert!(!apply(false).should_update_self(&args));
    assert!(!Cmd::Doctor.should_update_self(&args));
    assert!(Cmd::Doctor.runs_without_config());
    assert!(Cmd::Schema.runs_without_config());
    assert!(!Cmd::Status { diff: false, all: false }.runs_without_config());
}
