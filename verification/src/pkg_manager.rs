//! The host's package manager.

use vstd::prelude::*;

use crate::pkg::InstallHint;
use crate::text::{join_strings, owned, seq_join, views};

verus! {

/// A package manager found on the current host.
#[derive(Debug, Clone, Copy, PartialEq, Eq, Structural)]
pub enum DetectedPackageManager {
    /// Homebrew (macOS or Linuxbrew).
    Brew,
}

impl DetectedPackageManager {
    /// Stable lowercase identifier (e.g. `"brew"`).
    pub fn name(self) -> (r: &'static str)
        ensures
            r@ == "brew"@,
    {
        match self {
            DetectedPackageManager::Brew => "brew",
        }
    }

    /// Packages this manager would install for the given install hint.
    pub fn packages_for(self, hint: &InstallHint) -> (r: &[String])
        ensures
            r@ == hint.brew.packages@,
    {
        match self {
            DetectedPackageManager::Brew => hint.brew.packages.as_slice(),
        }
    }

    /// The one-shot command that installs `packages` with this manager.
    pub fn install_command(self, packages: &[String]) -> (r: String)
        ensures
            r@ == "brew install "@ + seq_join(views(packages@), " "@),
    {
        match self {
            DetectedPackageManager::Brew => {
                let mut out = owned("brew install ");
                let joined = join_strings(packages, " ");
                out.append(joined.as_str());
                out
            },
        }
    }
}

/// The supported package manager on the host, given whether `brew` is on
/// `PATH`.
pub fn detect(brew_on_path: bool) -> (r: Option<DetectedPackageManager>)
    ensures
        r == (if brew_on_path {
            Some(DetectedPackageManager::Brew)
        } else {
            None::<DetectedPackageManager>
        }),
{
    if brew_on_path {
        Some(DetectedPackageManager::Brew)
    } else {
        None
    }
}

} // verus!
