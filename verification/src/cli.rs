//! Options shared by every subcommand.

use vstd::prelude::*;

use crate::git::GitCmd;

verus! {

/// `--color`: when to emit ANSI escapes.
#[derive(Debug, Clone, Copy, PartialEq, Eq, Structural)]
pub enum ColorChoice {
    /// Color when the target stream is a terminal and `NO_COLOR` is unset.
    Auto,
    /// Always color.
    Always,
    /// Never color.
    Never,
}

impl Default for ColorChoice {
    fn default() -> (r: Self)
        ensures
            r == ColorChoice::Auto,
    {
        ColorChoice::Auto
    }
}

impl ColorChoice {
    /// Whether to color a stream: `stream_is_terminal` tells whether the
    /// stream colors go to is a terminal, `no_color_set` whether the
    /// `NO_COLOR` environment variable is set.
    pub fn enabled(self, stream_is_terminal: bool, no_color_set: bool) -> (r: bool)
        ensures
            r == match self {
                ColorChoice::Always => true,
                ColorChoice::Never => false,
                ColorChoice::Auto => !no_color_set && stream_is_terminal,
            },
    {
        match self {
            ColorChoice::Always => true,
            ColorChoice::Never => false,
            ColorChoice::Auto => !no_color_set && stream_is_terminal,
        }
    }
}

/// Options shared by every subcommand.
#[derive(Debug, Clone, Copy, PartialEq, Eq, Structural)]
pub struct Args {
    /// When to colorize output.
    pub color: ColorChoice,
    /// Whether standard input is a terminal, so prompts can be answered.
    pub stdin_is_terminal: bool,
}

/// How events are rendered.
#[derive(Debug, Clone, Copy, PartialEq, Eq, Structural)]
pub enum OutputMode {
    /// Human-readable text, optionally colored.
    Human,
    /// Newline-delimited JSON, one event per line.
    Json,
}

/// The shells completion scripts are written for.
#[derive(Debug, Clone, Copy, PartialEq, Eq, Structural)]
pub enum CompletionShell {
    Bash,
    Elvish,
    Fish,
    PowerShell,
    Zsh,
}

/// The subcommands.
#[derive(Debug, Clone, PartialEq)]
pub enum Cmd {
    /// Bring the managed files to their desired state.
    Apply { pull_config: bool, yes: bool, dry_run: bool, allow_dirty: bool },
    /// Report what `apply` would change.
    Status { diff: bool, all: bool },
    /// List the configured packages, filtered by `pattern`.
    Pkg { pattern: Vec<String>, all: bool, all_hints: bool, verbose: bool },
    /// Git pass-through against the config repo.
    Repo { command: GitCmd },
    /// Clone a config repo, or bootstrap a new one.
    Init { url: Option<String>, branch: Option<String>, apply: bool, yes: bool },
    /// Diagnose the environment.
    Doctor,
    /// Dump the JSON schema bundle.
    Schema,
    /// Print a completion script.
    Completions { shell: CompletionShell },
}

impl Cmd {
    /// Whether the config repo is pulled before the configuration loads:
    /// only for `apply --pull-config`.
    pub fn should_update_self(&self, _args: &Args) -> (r: bool)
        ensures
            r == (*self matches Cmd::Apply { pull_config, .. } && pull_config),
    {
        match self {
            Cmd::Apply { pull_config, .. } => *pull_config,
            _ => false,
        }
    }

    /// Whether the command runs without loading the configuration:
    /// `init`, `doctor`, `schema` and `completions` must work on a machine
    /// without one.
    pub fn runs_without_config(&self) -> (r: bool)
        ensures
            r == (self is Init || self is Doctor || self is Schema || self is Completions),
    {
        match self {
            Cmd::Init { .. } => true,
            Cmd::Doctor => true,
            Cmd::Schema => true,
            Cmd::Completions { .. } => true,
            _ => false,
        }
    }
}

/// Which prompter `apply` answers its questions with.
#[derive(Debug, Clone, Copy, PartialEq, Eq, Structural)]
pub enum PrompterKind {
    /// Shows every question, answers no.
    DryRun,
    /// Answers yes without asking.
    Yes,
    /// Asks on the terminal.
    Terminal,
}

/// `apply` without `--yes` or `--dry-run` needs a terminal to ask on.
#[derive(Debug, Clone, Copy, PartialEq, Eq, Structural)]
pub enum ApplyNeedsYesOrTty {
    ApplyNeedsYesOrTty,
}

/// `--dry-run` wins over `--yes`; without either, the terminal asks, and
/// without a terminal `apply` refuses.
pub fn prompter_kind(yes: bool, dry_run: bool, stdin_is_terminal: bool) -> (r: Result<PrompterKind, ApplyNeedsYesOrTty>)
    ensures
        dry_run ==> r == Ok::<PrompterKind, ApplyNeedsYesOrTty>(PrompterKind::DryRun),
        !dry_run && yes ==> r == Ok::<PrompterKind, ApplyNeedsYesOrTty>(PrompterKind::Yes),
        !dry_run && !yes && stdin_is_terminal ==> r == Ok::<PrompterKind, ApplyNeedsYesOrTty>(PrompterKind::Terminal),
        !dry_run && !yes && !stdin_is_terminal ==> r is Err,
{
    if dry_run {
        Ok(PrompterKind::DryRun)
    } else if yes {
        Ok(PrompterKind::Yes)
    } else if stdin_is_terminal {
        Ok(PrompterKind::Terminal)
    } else {
        Err(ApplyNeedsYesOrTty::ApplyNeedsYesOrTty)
    }
}

/// What `apply` does about the config repo before writing anything.
#[derive(Debug, Clone, Copy, PartialEq, Eq, Structural)]
pub enum DirtyRepoGate {
    /// Go on: the repo is clean (or not a repo), or `--allow-dirty`.
    Proceed,
    /// Report the repo's status, then refuse: `--yes` on a dirty repo
    /// needs `--allow-dirty`.
    Refuse,
    /// Report the repo's status, show the summary and ask whether to
    /// commit and push, go on, or stop.
    Ask,
}

/// What `apply` does before writing, given whether the config directory is a
/// repository (`is_repo`) with uncommitted changes (`dirty`).
pub fn dirty_repo_gate(is_repo: bool, dirty: bool, yes: bool, allow_dirty: bool) -> (r: DirtyRepoGate)
    ensures
        !(is_repo && dirty) ==> r == DirtyRepoGate::Proceed,
        is_repo && dirty && allow_dirty ==> r == DirtyRepoGate::Proceed,
        is_repo && dirty && !allow_dirty && yes ==> r == DirtyRepoGate::Refuse,
        is_repo && dirty && !allow_dirty && !yes ==> r == DirtyRepoGate::Ask,
{
    if !(is_repo && dirty) || allow_dirty {
        DirtyRepoGate::Proceed
    } else if yes {
        DirtyRepoGate::Refuse
    } else {
        DirtyRepoGate::Ask
    }
}

/// The whole command line: the shared options, how to render, and the
/// subcommand.
#[derive(Debug, Clone, PartialEq)]
pub struct Cli {
    pub args: Args,
    pub output: OutputMode,
    pub command: Cmd,
}

} // verus!
