//! The session's error language, one variant per failure kind: resolving
//! the worker executable, spawning it, misusing the session's mode or
//! state, writing audio to its pipe, decoding its output, the output
//! channel ending, and shutting the worker down.  The process-level
//! variants (`Spawn`, `PipeWrite`, `Shutdown`) are produced by the
//! embedding application, which owns the worker process; the rest are
//! produced here.

use vstd::prelude::*;

verus! {

/// A failure of the transcription session.
#[derive(Debug, Clone, PartialEq)]
pub enum SessionError {
    /// No worker executable was found, or an explicit path does not
    /// exist; carries a description of what was missing.
    Configuration(String),
    /// The operating system failed to start the worker; carries the OS
    /// error's description.
    Spawn(String),
    /// The session has not been started (or was stopped), so there is no
    /// worker to feed or poll.
    NotStarted,
    /// The session already has a live worker; stop it before starting
    /// another.
    AlreadyRunning,
    /// Audio was fed to a session whose input mode is not programmatic.
    ModeViolation,
    /// Writing audio to the worker's input pipe failed; carries the OS
    /// error's description.
    PipeWrite(String),
    /// A line of worker output was not a well-formed result record;
    /// carries the offending line.
    Decode(Vec<u8>),
    /// The worker's output stream has ended; no more results will arrive
    /// until the session is restarted.
    ChannelEnded,
    /// Terminating or reaping the worker failed; carries the OS error's
    /// description.
    Shutdown(String),
}

impl SessionError {
    /// A short fixed description of the failure kind.
    pub fn describe(&self) -> (r: &'static str)
        ensures
            self matches SessionError::Configuration(_) ==> r@ == "worker executable not found"@,
            self matches SessionError::Spawn(_) ==> r@ == "failed to start worker"@,
            self is NotStarted ==> r@ == "transcriber not started"@,
            self is AlreadyRunning ==> r@ == "transcriber already running"@,
            self is ModeViolation ==> r@ == "audio can only be fed in programmatic input mode"@,
            self matches SessionError::PipeWrite(_) ==> r@ == "failed to write audio to worker"@,
            self matches SessionError::Decode(_) ==> r@ == "failed to parse result line"@,
            self is ChannelEnded ==> r@ == "streaming process ended"@,
            self matches SessionError::Shutdown(_) ==> r@ == "failed to stop worker"@,
    {
        match self {
            SessionError::Configuration(_) => "worker executable not found",
            SessionError::Spawn(_) => "failed to start worker",
            SessionError::NotStarted => "transcriber not started",
            SessionError::AlreadyRunning => "transcriber already running",
            SessionError::ModeViolation => "audio can only be fed in programmatic input mode",
            SessionError::PipeWrite(_) => "failed to write audio to worker",
            SessionError::Decode(_) => "failed to parse result line",
            SessionError::ChannelEnded => "streaming process ended",
            SessionError::Shutdown(_) => "failed to stop worker",
        }
    }
}

} // verus!
