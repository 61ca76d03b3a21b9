//! Per-command event payload types.

use vstd::prelude::*;

use crate::config_files::{ConfigFileDirs, ConfigFilePath};
use crate::git::GitFileStatus;

verus! {

/// One row of `zenops pkg`.
#[derive(Debug, Clone, PartialEq)]
pub enum PkgEntry {
    /// One per visible package.
    Pkg {
        /// Display label (`pkg.name` override, or the map key).
        name: String,
        /// Original `[pkg.<key>]` map key.
        key: String,
        /// Free-text description from `pkg.description`, if any.
        description: Option<String>,
        /// Computed install state on this host.
        state: PkgEntryState,
        /// The matching detect strategy, when asked for and one matched.
        matched_detect: Option<String>,
        /// Install commands grouped by package manager.
        install_hints: PkgInstallHints,
    },
    /// "To install all missing via brew: brew install foo bar" footer.
    AggregateInstall {
        /// Package manager that produced the aggregate command.
        pkg_manager: String,
        /// The full ready-to-run shell command.
        command: String,
        /// Packages aggregated into the command, in order.
        packages: Vec<String>,
    },
    /// One-shot warning emitted when no supported package manager is on PATH.
    NoPackageManagerDetected {
        /// Package managers zenops knows how to detect.
        supported: Vec<String>,
    },
}

/// State a configured pkg is in on the current host.
#[derive(Debug, Clone, Copy, PartialEq, Eq, Structural)]
pub enum PkgEntryState {
    /// Not expected to be present.
    Disabled,
    /// At least one detect strategy matched.
    Installed,
    /// Expected but no detect strategy matched.
    Missing,
}

/// Per-manager install hints.
#[derive(Debug, Clone, PartialEq)]
pub struct PkgInstallHints {
    /// Homebrew packages this pkg installs.
    pub brew: Vec<String>,
}

impl Default for PkgInstallHints {
    fn default() -> (r: Self)
        ensures
            r.brew@.len() == 0,
    {
        PkgInstallHints { brew: Vec::new() }
    }
}

/// One row of `zenops doctor`.
#[derive(Debug, Clone, PartialEq)]
pub enum DoctorCheck {
    /// A labeled environment check.
    Check {
        /// Section this row belongs to.
        section: DoctorSection,
        /// The left-column label.
        label: String,
        /// Severity that drives the colour.
        severity: DoctorSeverity,
        /// Right-hand value.
        value: String,
        /// Actionable phrasing on the same line as the value.
        hint: Option<String>,
        /// Multi-line detail body, one element per line.
        detail: Vec<String>,
    },
    /// Marker for sections that have no rows of their own.
    SectionHeader {
        /// Which section is starting.
        section: DoctorSection,
    },
}

/// Logical grouping for `doctor` rows.
#[derive(Debug, Clone, Copy, PartialEq, Eq, Structural)]
pub enum DoctorSection {
    System,
    Repo,
    Config,
    PkgManager,
    User,
    Shell,
    Packages,
}

/// Severity badge attached to a [`DoctorCheck::Check`].
#[derive(Debug, Clone, Copy, PartialEq, Eq, Structural)]
pub enum DoctorSeverity {
    Okay,
    Info,
    Warn,
    Bad,
}

/// Result of a successful `zenops init` clone.
#[derive(Debug, Clone, PartialEq)]
pub struct InitSummary {
    /// Where the repo was cloned to.
    pub clone_path: String,
    /// Remote URL recorded in the cloned repo, if any.
    pub remote: Option<String>,
    /// The configured shell, if any.
    pub shell: Option<String>,
    /// Number of `[pkg.<name>]` entries in the cloned `config.toml`.
    pub pkg_count: usize,
}

/// Result of a successful `zenops init` bootstrap.
#[derive(Debug, Clone, PartialEq)]
pub struct BootstrapSummary {
    /// Where the new repo was created.
    pub repo_path: String,
    /// The shell picked at the prompt, if any.
    pub shell: Option<String>,
    /// Name written to `[user]`, if any.
    pub name: Option<String>,
    /// Email written to `[user]`, if any.
    pub email: Option<String>,
}

/// Where a managed symlink stands relative to its desired target.
#[derive(Debug, PartialEq, Clone)]
pub enum SymlinkStatus {
    /// Symlink exists and points to the right place.
    Okay,
    /// Symlink exists but points somewhere else (the path it points to).
    WrongLink(String),
    /// The symlink does not exist and must be created.
    New,
    /// The path is a file and not a symlink.
    IsFile,
    /// The path is a directory and not a symlink.
    IsDir,
    /// The path exists but is neither a regular file, directory, nor symlink.
    IsOther,
    /// The symlink is right but its source does not exist.
    RealPathIsMissing,
    /// The directory that should contain the symlink is missing.
    DstDirIsMissing {
        /// Parent directory of the symlink that needs to be created.
        dir: ResolvedConfigFilePath,
    },
}

/// Where a generated file stands relative to its desired contents.
#[derive(Debug, PartialEq, Clone, Copy, Eq, Structural)]
pub enum FileStatus {
    /// On-disk content matches the generated body.
    Okay,
    /// File exists but content differs.
    Modified,
    /// File does not exist yet.
    New,
}

/// Per-package install state used by `Status::Pkg`.
#[derive(Debug, PartialEq, Clone)]
pub enum PkgStatus {
    /// Pkg is installed.
    Okay,
    /// An expected pkg that is not installed, with the command that would
    /// install it when one is known.
    Missing {
        /// Ready-to-run install command, if any.
        install_command: Option<String>,
    },
}

/// A [`ConfigFilePath`] paired with its resolved absolute path.
#[derive(Debug, Clone, PartialEq)]
pub struct ResolvedConfigFilePath {
    /// The symbolic path (root + relative tail).
    pub path: ConfigFilePath,
    /// The resolved absolute filesystem path.
    pub full: String,
}

/// Drop the last component of an absolute path, as `Path::parent` does
/// (Unix path rules).
pub uninterp spec fn fs_parent(full: Seq<char>) -> Option<Seq<char>>;

/// `Path::parent`, as text.
#[verifier::external_body]
pub(crate) fn full_parent(full: &str) -> (r: Option<String>)
    ensures
        match fs_parent(full@) {
            None => r is None,
            Some(p) => r matches Some(s) && s@ == p,
        },
{
    std::path::Path::new(full).parent().map(|p| p.to_string_lossy().into_owned())
}

impl ResolvedConfigFilePath {
    /// Resolve `path` against `dirs` and keep both forms.
    pub fn resolve(path: ConfigFilePath, dirs: &ConfigFileDirs) -> (r: Self)
        ensures
            r.path == path,
    {
        let full = path.resolved(dirs);
        ResolvedConfigFilePath { path, full }
    }

    /// The parent path in the same root, with `full` adjusted in lock-step;
    /// `None` if either side is already at the top.
    pub fn parent(&self) -> (r: Option<Self>)
        ensures
            r is Some <==> (crate::config_files::rel_text(self.path).len() > 0 && fs_parent(
                self.full@,
            ) is Some),
            r matches Some(q) ==> fs_parent(self.full@) == Some(q.full@)
                && crate::config_files::same_root(self.path, q.path),
    {
        match self.path.parent() {
            None => None,
            Some(path) => match full_parent(self.full.as_str()) {
                None => None,
                Some(full) => Some(ResolvedConfigFilePath { path, full }),
            },
        }
    }

    /// The path as users see it.
    pub fn human(&self) -> (r: String)
        ensures
            r@ == crate::config_files::human_path_spec(self.path),
    {
        self.path.human_path()
    }
}

/// One row of the desired-state report.
#[derive(Debug, PartialEq, Clone)]
pub enum Status {
    /// A managed file whose content is generated by zenops.
    Generated {
        /// Body zenops wants on disk.
        want_content: String,
        /// Body currently on disk, if any.
        cur_content: Option<String>,
        /// Where the file lives.
        path: ResolvedConfigFilePath,
        /// Comparison verdict.
        status: FileStatus,
    },
    /// A managed symlink.
    Symlink {
        /// Target the symlink should point at.
        real: ResolvedConfigFilePath,
        /// Where the symlink lives.
        symlink: ResolvedConfigFilePath,
        /// Comparison verdict.
        status: SymlinkStatus,
    },
    /// One file's git state inside the zenops config repo.
    Git {
        /// The zenops config repo.
        repo: ResolvedConfigFilePath,
        /// Per-file status from `git status`.
        status: GitFileStatus,
    },
    /// The zenops config repo has no uncommitted changes.
    GitRepoClean {
        /// The zenops config repo path.
        repo: ResolvedConfigFilePath,
    },
    /// Install state for a configured pkg.
    Pkg {
        /// Pkg key from `[pkg.<key>]`.
        pkg: String,
        /// Computed install state on this host.
        status: PkgStatus,
    },
}

/// One change actually written to disk during `apply`.
#[derive(Debug, PartialEq, Clone)]
pub enum AppliedAction {
    /// Existing generated file overwritten with new content.
    UpdatedFile(ResolvedConfigFilePath),
    /// Generated file created.
    CreatedFile(ResolvedConfigFilePath),
    /// Symlink created at `symlink` pointing at `real`.
    CreatedSymlink { real: ResolvedConfigFilePath, symlink: ResolvedConfigFilePath },
    /// Symlink replaced at `symlink`: it now points at `real`.
    ReplacedSymlink { real: ResolvedConfigFilePath, symlink: ResolvedConfigFilePath },
    /// Parent directory created so a managed file or symlink could land.
    CreatedDir(ResolvedConfigFilePath),
}

} // verus!
