//! What can go wrong with a session, and how it is reported.

use vstd::prelude::*;
use vstd::string::*;

verus! {

/// The failure of one operation on a session. Each variant but `SessionNotFound`
/// carries the message that describes the failure; `SessionNotFound` carries the
/// identifier that was asked for.
#[derive(Debug, Clone, PartialEq, Eq)]
pub enum SessionError {
    /// No pseudo-terminal could be opened.
    PtyOpenFailed(String),
    /// No child process could be started on the pseudo-terminal.
    SpawnFailed(String),
    /// The read loop could not be set up.
    ReaderSetupFailed(String),
    /// Bytes could not be written to the pseudo-terminal.
    WriteFailed(String),
    /// The size of the pseudo-terminal could not be changed.
    ResizeFailed(String),
    /// No session has the identifier.
    SessionNotFound(String),
    /// The signal store could not be read or written.
    FilesystemError(String),
}

/// The step of the engine at which the system reported a failure.
#[derive(Debug, Clone, Copy, PartialEq, Eq, Structural)]
pub enum PtyStep {
    OpenPty,
    TakeWriter,
    SpawnCommand,
    SpawnShell,
    CloneReader,
    Write,
    Flush,
    Resize,
    CreateSessionsDir,
}

impl PtyStep {
    /// The words that a failure of this step is reported with.
    pub open spec fn label(self) -> Seq<char> {
        match self {
            PtyStep::OpenPty => "Failed to open PTY"@,
            PtyStep::TakeWriter => "Failed to get PTY writer"@,
            PtyStep::SpawnCommand => "Failed to spawn command"@,
            PtyStep::SpawnShell => "Failed to spawn shell"@,
            PtyStep::CloneReader => "Failed to get PTY reader"@,
            PtyStep::Write => "Failed to write to PTY"@,
            PtyStep::Flush => "Failed to flush PTY"@,
            PtyStep::Resize => "Failed to resize PTY"@,
            PtyStep::CreateSessionsDir => "Failed to create sessions dir"@,
        }
    }

    /// The message of a failure of this step: its label, a colon, and what the
    /// system said.
    pub open spec fn message(self, detail: Seq<char>) -> Seq<char> {
        self.label() + ": "@ + detail
    }
}

impl SessionError {
    /// The text that the error carries: a message, or for `SessionNotFound` the
    /// identifier.
    pub open spec fn detail(self) -> Seq<char> {
        match self {
            SessionError::PtyOpenFailed(s) => s@,
            SessionError::SpawnFailed(s) => s@,
            SessionError::ReaderSetupFailed(s) => s@,
            SessionError::WriteFailed(s) => s@,
            SessionError::ResizeFailed(s) => s@,
            SessionError::SessionNotFound(s) => s@,
            SessionError::FilesystemError(s) => s@,
        }
    }

    /// The message that a caller is shown.
    pub open spec fn message_text(self) -> Seq<char> {
        match self {
            SessionError::SessionNotFound(id) => "Session '"@ + id@ + "' not found"@,
            _ => self.detail(),
        }
    }

    /// Whether the error is the one that a failure of `step` is reported as.
    pub open spec fn reports(self, step: PtyStep) -> bool {
        match step {
            PtyStep::OpenPty | PtyStep::TakeWriter => self is PtyOpenFailed,
            PtyStep::SpawnCommand | PtyStep::SpawnShell => self is SpawnFailed,
            PtyStep::CloneReader => self is ReaderSetupFailed,
            PtyStep::Write | PtyStep::Flush => self is WriteFailed,
            PtyStep::Resize => self is ResizeFailed,
            PtyStep::CreateSessionsDir => self is FilesystemError,
        }
    }

    /// The error for a failure of `step`, of which the system said `detail`.
    pub fn failure(step: PtyStep, detail: &str) -> (error: SessionError)
        ensures
            error.reports(step),
            error.detail() == step.message(detail@),
    {
        let label = match step {
            PtyStep::OpenPty => "Failed to open PTY",
            PtyStep::TakeWriter => "Failed to get PTY writer",
            PtyStep::SpawnCommand => "Failed to spawn command",
            PtyStep::SpawnShell => "Failed to spawn shell",
            PtyStep::CloneReader => "Failed to get PTY reader",
            PtyStep::Write => "Failed to write to PTY",
            PtyStep::Flush => "Failed to flush PTY",
            PtyStep::Resize => "Failed to resize PTY",
            PtyStep::CreateSessionsDir => "Failed to create sessions dir",
        };
        let mut message = String::from_str(label);
        message.append(": ");
        message.append(detail);
        match step {
            PtyStep::OpenPty | PtyStep::TakeWriter => SessionError::PtyOpenFailed(message),
            PtyStep::SpawnCommand | PtyStep::SpawnShell => SessionError::SpawnFailed(message),
            PtyStep::CloneReader => SessionError::ReaderSetupFailed(message),
            PtyStep::Write | PtyStep::Flush => SessionError::WriteFailed(message),
            PtyStep::Resize => SessionError::ResizeFailed(message),
            PtyStep::CreateSessionsDir => SessionError::FilesystemError(message),
        }
    }

    /// The error for a session that is not in the registry.
    pub fn not_found(session_id: &str) -> (error: SessionError)
        ensures
            error is SessionNotFound,
            error.detail() == session_id@,
    {
        SessionError::SessionNotFound(String::from_str(session_id))
    }

    /// The message that a caller is shown: for a missing session the words
    /// `Session '<id>' not found`, else the message that the error carries.
    pub fn message(&self) -> (text: String)
        ensures
            text@ == self.message_text(),
    {
        match self {
            SessionError::SessionNotFound(id) => {
                let mut text = String::from_str("Session '");
                text.append(id.as_str());
                text.append("' not found");
                text
            },
            SessionError::PtyOpenFailed(s) => s.clone(),
            SessionError::SpawnFailed(s) => s.clone(),
            SessionError::ReaderSetupFailed(s) => s.clone(),
            SessionError::WriteFailed(s) => s.clone(),
            SessionError::ResizeFailed(s) => s.clone(),
            SessionError::FilesystemError(s) => s.clone(),
        }
    }
}

} // verus!
