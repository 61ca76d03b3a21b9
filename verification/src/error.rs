//! The error type shared by the library's fallible operations.

use vstd::prelude::*;

use crate::import::ImportError;
use crate::safe_path;

verus! {

/// What went wrong in one of the library's fallible operations.
#[derive(Debug)]
pub enum Error {
    /// A path that was meant to stay inside its parent did not.
    SafeRelativePath(safe_path::Error),
    /// The user's home directory could not be determined.
    NoHomeDir,
    /// Reading an answer from the user failed.
    PromptRead(std::io::Error),
    /// The user interrupted a prompt.
    PromptInterrupted,
    /// `zenops import` refused its input.
    Import(ImportError),
    /// A pkg's template names an input nobody provides.
    UnresolvedInput { pkg: String, input: String },
    /// A pkg's template opens a placeholder it never closes.
    TemplateUnterminated { pkg: String },
    /// A package spec names a kind other than `brew` or `cargo`: the kind
    /// and the package's name.
    UnknownPackageKind(String, String),
    /// A package spec string is malformed: the string and what was
    /// expected.
    InvalidPackageSpec(String, String),
}

} // verus!
