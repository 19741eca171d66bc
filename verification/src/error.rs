//! The ways in which a synchronisation pass can fail.

use vstd::prelude::*;

verus! {

/// Why a pass was abandoned. Every failure ends the pass at once; nothing
/// already written or removed is put back.
#[derive(Clone, Debug, PartialEq, Eq)]
pub enum SyncError {
    /// The backend address is no absolute URL, or no request address can
    /// be formed from it.
    InvalidUrl,
    /// A request did not reach the server, was answered outside the 2xx
    /// range, or its body could not be read as what was asked for.
    Transport,
    /// The changelist names a file to download that is present locally,
    /// and gives no fingerprint for it.
    MissingHashEntry { file: String },
    /// A file could not be read, created, written or removed.
    Io,
    /// The driver reported something other than the outcome of the step it
    /// was asked to perform.
    OutOfTurn,
}

/// The mathematical value of a `SyncError`.
pub ghost enum Fault {
    InvalidUrl,
    Transport,
    MissingHashEntry { file: Seq<char> },
    Io,
    OutOfTurn,
}

impl View for SyncError {
    type V = Fault;

    open spec fn view(&self) -> Fault {
        match self {
            SyncError::InvalidUrl => Fault::InvalidUrl,
            SyncError::Transport => Fault::Transport,
            SyncError::MissingHashEntry { file } => Fault::MissingHashEntry { file: file@ },
            SyncError::Io => Fault::Io,
            SyncError::OutOfTurn => Fault::OutOfTurn,
        }
    }
}

/// What went wrong outside the library while a step was performed.
#[derive(Clone, Copy, Debug, PartialEq, Eq, Structural)]
pub enum Failure {
    /// The network, the server's status or the body of its answer.
    Transport,
    /// The local file system.
    Io,
}

impl Failure {
    /// The error with which a pass ends after this failure.
    pub open spec fn fault(self) -> Fault {
        match self {
            Failure::Transport => Fault::Transport,
            Failure::Io => Fault::Io,
        }
    }

    /// Turns the failure of a step into the error of the pass.
    pub fn into_error(self) -> (e: SyncError)
        ensures
            e@ == self.fault(),
    {
        match self {
            Failure::Transport => SyncError::Transport,
            Failure::Io => SyncError::Io,
        }
    }
}

impl SyncError {
    /// A copy of the error.
    pub fn duplicate(&self) -> (e: SyncError)
        ensures
            e@ == self@,
    {
        match self {
            SyncError::InvalidUrl => SyncError::InvalidUrl,
            SyncError::Transport => SyncError::Transport,
            SyncError::MissingHashEntry { file } => SyncError::MissingHashEntry {
                file: file.clone(),
            },
            SyncError::Io => SyncError::Io,
            SyncError::OutOfTurn => SyncError::OutOfTurn,
        }
    }
}

} // verus!
