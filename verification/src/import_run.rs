//! The import run around a built plan: parse `config.toml`, then step
//! through the dry run, the confirmation, applying the files and writing
//! the document back. The caller performs each action and reports what
//! happened.

use toml_edit::DocumentMut;
use vstd::prelude::*;

use crate::import::ImportError;
use crate::import_config::toml_pkgs;
use crate::import_doc::PkgsModel;

verus! {

/// The pkg tables of the document `text` parses as, or `None` when it is
/// not valid TOML.
pub uninterp spec fn toml_doc_pkgs(text: Seq<char>) -> Option<PkgsModel>;

/// `str::parse::<DocumentMut>`: the document, or the parser's message.
#[verifier::external_body]
fn parse_doc(text: &str) -> (r: Result<DocumentMut, String>)
    ensures
        r is Ok <==> toml_doc_pkgs(text@) is Some,
        r matches Ok(d) ==> toml_doc_pkgs(text@) == Some(toml_pkgs(d)),
{
    text.parse::<DocumentMut>().map_err(|e| e.to_string())
}

/// Parse the text of `config.toml` into an editable document.
pub fn parse_config_doc(text: &str) -> (r: Result<DocumentMut, ImportError>)
    ensures
        r is Ok <==> toml_doc_pkgs(text@) is Some,
        r matches Ok(d) ==> toml_doc_pkgs(text@) == Some(toml_pkgs(d)),
        r matches Err(e) ==> e is ConfigParse,
{
    match parse_doc(text) {
        Ok(d) => Ok(d),
        Err(msg) => Err(ImportError::ConfigParse(msg)),
    }
}

/// Where an import run stands once its plan was shown.
#[derive(Debug, Clone, Copy, PartialEq, Eq, Structural)]
pub enum ImportStage {
    /// The plan was shown; nothing else happened yet.
    Planned,
    /// Waiting for the answer to "Apply this plan?".
    Confirming,
    /// The files are being copied, linked, renamed or removed.
    ApplyingFiles,
    /// The edited `config.toml` is being written.
    Writing,
    /// The run is over.
    Finished,
    /// The run was refused.
    Aborted,
    /// A file step failed; what was done is being undone.
    RolledBack,
}

/// What happened since the last step.
#[derive(Debug, Clone, Copy, PartialEq, Eq, Structural)]
pub enum ImportRunEvent {
    /// The plan was shown: whether this is a dry run, whether the plan
    /// changes nothing, whether `--yes` was given, and whether there is
    /// someone to ask.
    Shown { dry_run: bool, noop: bool, yes: bool, can_ask: bool },
    /// The answer to "Apply this plan?".
    Answered(bool),
    /// The files were applied.
    FilesApplied,
    /// A file step failed.
    FileStepFailed,
    /// `config.toml` was written.
    Written,
}

/// What the caller does next.
#[derive(Debug, Clone, Copy, PartialEq, Eq, Structural)]
pub enum ImportRunAction {
    /// Nothing more.
    Stop,
    /// Ask "Apply this plan?".
    Confirm,
    /// Apply the plan's file steps.
    ApplyFiles,
    /// Update the document and write `config.toml`.
    WriteConfig,
    /// Report the import as applied; `is_noop` when nothing had to change.
    ReportApplied { is_noop: bool },
    /// Fail with [`ImportError::Aborted`].
    Abort,
    /// Undo the file steps done so far (see `rollback_steps`), then fail
    /// with the step's error; `config.toml` is not written.
    RollBack,
}

/// One step of an import run: a dry run stops after the plan; a plan that
/// changes nothing is reported as applied without asking or writing;
/// otherwise the user is asked (unless `--yes` was given or there is no
/// one to ask), a "no" aborts, and a "yes" applies the files, writes
/// `config.toml` and reports the import; a failed file step rolls back
/// what was done and writes nothing. An event that does not fit the
/// stage stops the run where it is.
pub open spec fn import_step_spec(stage: ImportStage, event: ImportRunEvent) -> (ImportStage, ImportRunAction) {
    match (stage, event) {
        (ImportStage::Planned, ImportRunEvent::Shown { dry_run, noop, yes, can_ask }) => if dry_run {
            (ImportStage::Finished, ImportRunAction::Stop)
        } else if noop {
            (ImportStage::Finished, ImportRunAction::ReportApplied { is_noop: true })
        } else if !yes && can_ask {
            (ImportStage::Confirming, ImportRunAction::Confirm)
        } else {
            (ImportStage::ApplyingFiles, ImportRunAction::ApplyFiles)
        },
        (ImportStage::Confirming, ImportRunEvent::Answered(yes)) => if yes {
            (ImportStage::ApplyingFiles, ImportRunAction::ApplyFiles)
        } else {
            (ImportStage::Aborted, ImportRunAction::Abort)
        },
        (ImportStage::ApplyingFiles, ImportRunEvent::FilesApplied) => (ImportStage::Writing, ImportRunAction::WriteConfig),
        (ImportStage::ApplyingFiles, ImportRunEvent::FileStepFailed) => (
            ImportStage::RolledBack,
            ImportRunAction::RollBack,
        ),
        (ImportStage::Writing, ImportRunEvent::Written) => (
            ImportStage::Finished,
            ImportRunAction::ReportApplied { is_noop: false },
        ),
        _ => (stage, ImportRunAction::Stop),
    }
}

/// Decide the next step of an import run.
pub fn import_step(stage: ImportStage, event: ImportRunEvent) -> (r: (ImportStage, ImportRunAction))
    ensures
        r == import_step_spec(stage, event),
{
    match (stage, event) {
        (ImportStage::Planned, ImportRunEvent::Shown { dry_run, noop, yes, can_ask }) => if dry_run {
            (ImportStage::Finished, ImportRunAction::Stop)
        } else if noop {
            (ImportStage::Finished, ImportRunAction::ReportApplied { is_noop: true })
        } else if !yes && can_ask {
            (ImportStage::Confirming, ImportRunAction::Confirm)
        } else {
            (ImportStage::ApplyingFiles, ImportRunAction::ApplyFiles)
        },
        (ImportStage::Confirming, ImportRunEvent::Answered(yes)) => if yes {
            (ImportStage::ApplyingFiles, ImportRunAction::ApplyFiles)
        } else {
            (ImportStage::Aborted, ImportRunAction::Abort)
        },
        (ImportStage::ApplyingFiles, ImportRunEvent::FilesApplied) => (ImportStage::Writing, ImportRunAction::WriteConfig),
        (ImportStage::ApplyingFiles, ImportRunEvent::FileStepFailed) => (
            ImportStage::RolledBack,
            ImportRunAction::RollBack,
        ),
        (ImportStage::Writing, ImportRunEvent::Written) => (
            ImportStage::Finished,
            ImportRunAction::ReportApplied { is_noop: false },
        ),
        _ => (stage, ImportRunAction::Stop),
    }
}

/// Nothing is written before the user agrees: from a shown plan, the run
/// writes `config.toml` only after the files were applied, and the files
/// are applied only on a "yes", or without asking when `--yes` was given
/// or there is no one to ask; a dry run or a plan that changes nothing
/// never applies files.
pub proof fn lemma_import_writes_only_after_consent(dry_run: bool, noop: bool, yes: bool, can_ask: bool)
    ensures
        ({
            let first = import_step_spec(ImportStage::Planned, ImportRunEvent::Shown { dry_run, noop, yes, can_ask });
            &&& (dry_run || noop) ==> first.1 != ImportRunAction::ApplyFiles && first.0 == ImportStage::Finished
            &&& first.1 == ImportRunAction::ApplyFiles <==> (!dry_run && !noop && (yes || !can_ask))
            &&& first.1 == ImportRunAction::Confirm ==> import_step_spec(first.0, ImportRunEvent::Answered(false))
                == (ImportStage::Aborted, ImportRunAction::Abort)
        }),
        forall|s: ImportStage, e: ImportRunEvent|
            #![trigger import_step_spec(s, e)]
            import_step_spec(s, e).1 == ImportRunAction::WriteConfig ==> s == ImportStage::ApplyingFiles && e
                == ImportRunEvent::FilesApplied,
        forall|s: ImportStage, e: ImportRunEvent|
            #![trigger import_step_spec(s, e)]
            import_step_spec(s, e).1 == ImportRunAction::ApplyFiles ==> (s == ImportStage::Confirming && e
                == ImportRunEvent::Answered(true)) || (s == ImportStage::Planned && e matches ImportRunEvent::Shown {
                dry_run: false,
                noop: false,
                ..
            }),
{
}

} // verus!
