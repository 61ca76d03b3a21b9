//! Structured-event channel for command output.
//!
//! Every command emits through the [`Output`] trait. The human-readable
//! renderer is [`terminal::TerminalRenderer`]; a newline-delimited JSON
//! renderer implements the same trait at the edge of the program.

use vstd::prelude::*;

pub mod event;
pub mod terminal;

pub use event::{
    AppliedAction, BootstrapSummary, DoctorCheck, DoctorSection, DoctorSeverity, FileStatus,
    InitSummary, PkgEntry, PkgEntryState, PkgInstallHints, PkgStatus, ResolvedConfigFilePath,
    Status, SymlinkStatus,
};

verus! {

/// Errors surfaced by [`Output`] implementations.
#[derive(Debug)]
pub enum OutputError {
    /// I/O error from the backing writer.
    Io(std::io::Error),
    /// JSON serialisation error, as its message.
    Json(String),
}

/// One structured output event.
#[derive(Debug, Clone, PartialEq)]
pub enum Event {
    /// One row of the per-file desired-state report.
    Status(Status),
    /// One row per change `apply` actually wrote to disk.
    AppliedAction(AppliedAction),
    /// One row of `zenops pkg`.
    PkgEntry(PkgEntry),
    /// One row (or section marker) of `zenops doctor`.
    DoctorCheck(DoctorCheck),
    /// Outcome of `zenops init <url>` without `--apply`.
    InitSummary(InitSummary),
    /// Outcome of `zenops init` bootstrap (no URL).
    BootstrapSummary(BootstrapSummary),
}

/// The structured-output channel a command emits through.
pub trait Output {
    /// Emit one structured event.
    fn push(&mut self, event: Event) -> Result<(), OutputError>;

    /// Emit any buffered output; safe to call zero or one time at the end
    /// of a command.
    fn finalize(&mut self) -> Result<(), OutputError>;
}

/// Whether the JSON stream carries an event: every event but the bare
/// `doctor` section markers, which only the human renderer draws (JSON
/// consumers read the section off each check).
pub open spec fn json_carries(e: Event) -> bool {
    !(e matches Event::DoctorCheck(DoctorCheck::SectionHeader { .. }))
}

/// Newline-delimited JSON output: one encoded event per line. The encoding
/// of an event is done where the program meets the serializer; this type
/// decides which events are written and frames them.
pub struct JsonOutput {
    pending: String,
}

impl View for JsonOutput {
    type V = Seq<char>;

    /// The text written and not yet taken.
    closed spec fn view(&self) -> Seq<char> {
        self.pending@
    }
}

impl JsonOutput {
    pub fn new() -> (r: Self)
        ensures
            r@ == Seq::<char>::empty(),
    {
        JsonOutput { pending: String::new() }
    }

    /// Whether `event` goes into the stream at all.
    pub fn wants(event: &Event) -> (r: bool)
        ensures
            r == json_carries(*event),
    {
        match event {
            Event::DoctorCheck(DoctorCheck::SectionHeader { .. }) => false,
            _ => true,
        }
    }

    /// Write `event`, given as its JSON encoding `encoded`, as one line.
    pub fn push_encoded(&mut self, event: &Event, encoded: &str)
        ensures
            final(self)@ == if json_carries(*event) {
                old(self)@ + encoded@ + "\n"@
            } else {
                old(self)@
            },
    {
        if Self::wants(event) {
            self.pending.append(encoded);
            self.pending.append("\n");
        }
    }

    /// Hand out the written text, leaving the stream empty.
    pub fn take(&mut self) -> (r: String)
        ensures
            r@ == old(self)@,
            final(self)@ == Seq::<char>::empty(),
    {
        let mut out = String::new();
        std::mem::swap(&mut out, &mut self.pending);
        out
    }
}

} // verus!
