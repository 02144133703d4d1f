//! Error values of process execution and capture.

use crate::output::Output;
use crate::signal::SignalType;
use vstd::prelude::*;

verus! {

/// The category of an I/O error, as far as the process logic tells them
/// apart.
#[derive(Clone, Copy, Debug, PartialEq, Eq, Structural)]
pub enum IoErrorKind {
    /// A pipe was closed by its other end.
    BrokenPipe,
    /// The operation was interrupted and may be retried.
    Interrupted,
    /// The operation did not finish in time.
    TimedOut,
    /// The operation is not supported on this platform.
    Unsupported,
    /// Any other error.
    Other,
}

/// An I/O error: its kind, the operating system's error number when it
/// came from one, and its rendered message.
#[derive(Clone, Debug, PartialEq, Eq)]
pub struct IoError {
    /// The category of the error.
    pub kind: IoErrorKind,
    /// The OS error number, when the error came from the OS.
    pub raw_os_error: Option<i32>,
    /// The rendered message of the error.
    pub message: String,
}

impl IoError {
    /// An error of kind [`IoErrorKind::Other`] with the given message, as
    /// `io::Error::other` builds.
    pub fn other(message: &str) -> (r: IoError)
        ensures
            r.kind == IoErrorKind::Other,
            r.raw_os_error is None,
            r.message@ == message@,
    {
        IoError { kind: IoErrorKind::Other, raw_os_error: None, message: message.to_owned() }
    }

    /// A copy of this error.
    pub fn duplicate(&self) -> (r: IoError)
        ensures
            r == *self,
    {
        IoError { kind: self.kind, raw_os_error: self.raw_os_error, message: self.message.clone() }
    }
}

/// The message of two errors combined: the first, then the cleanup one.
pub open spec fn combined_message(first: Seq<char>, second: Seq<char>) -> Seq<char> {
    first + "; process cleanup also failed: "@ + second
}

/// Combine a primary error with one raised while cleaning up after it.
/// The result keeps the kind of the primary error.
pub fn combine_errors(first: &IoError, second: &IoError) -> (r: IoError)
    ensures
        r.kind == first.kind,
        r.raw_os_error is None,
        r.message@ == combined_message(first.message@, second.message@),
{
    let mut message = first.message.clone();
    message.append("; process cleanup also failed: ");
    message.append(second.message.as_str());
    IoError { kind: first.kind, raw_os_error: None, message }
}

/// Re-wrap an error that is shared between several waiters: a new error
/// of the same kind that renders as the shared one.
pub fn shared_error(error: &IoError) -> (r: IoError)
    ensures
        r.kind == error.kind,
        r.raw_os_error is None,
        r.message@ == error.message@,
{
    IoError { kind: error.kind, raw_os_error: None, message: error.message.clone() }
}

/// Errors of the blocking capture of a command.
#[derive(Clone, Debug, PartialEq, Eq)]
pub enum CaptureError {
    /// Failed to capture process output.
    Capture(IoError),
    /// Process output exceeded the byte limit.
    OutputLimitExceeded { limit: usize },
    /// Process exceeded its timeout, in milliseconds.
    Timeout { timeout_ms: u64 },
    /// Failed to write process input.
    WriteInput(IoError),
}

/// A capture failure with the given message.
pub fn capture_error(message: &str) -> (r: CaptureError)
    ensures
        r matches CaptureError::Capture(e) && e.kind == IoErrorKind::Other && e.message@ == message@
            && e.raw_os_error is None,
{
    CaptureError::Capture(IoError::other(message))
}

/// Errors that can occur while spawning, running, or communicating with a
/// child process.
#[derive(Debug)]
pub enum ProcessError {
    /// Failed to spawn the process, or to read its captured output.
    Capture { bin: String, error: IoError },
    /// Process cleanup failed after another execution failure.
    Cleanup { bin: String, error: IoError, failure: Box<ProcessError>, output: Option<Output> },
    /// The process exceeded the combined stdout and stderr byte limit.
    OutputLimitExceeded { bin: String, limit: usize, output: Option<Output> },
    /// The process exited but its output pipes did not close in time.
    OutputDrainTimeout { bin: String, timeout_ms: u64, output: Option<Output> },
    /// The process exceeded its execution timeout.
    Timeout { bin: String, timeout_ms: u64, output: Option<Output> },
    /// The process exited with a non-zero status, without captured output.
    ExitNonZero { bin: String, status: String, code: Option<i32> },
    /// The process exited with a non-zero status, with captured output.
    ExitNonZeroWithOutput { bin: String, status: String, code: Option<i32>, output: String },
    /// Failed to spawn the process, or to stream its output.
    Stream { bin: String, error: IoError },
    /// Failed to spawn the process, or to stream and capture its output.
    StreamCapture { bin: String, error: IoError },
    /// Failed to write buffered input to the process's stdin.
    WriteInput { bin: String, error: IoError },
    /// The blocking capture does not support an option of the command.
    UnsupportedCaptureOption { bin: String, option: String },
    /// The blocking capture cannot run on a current-thread runtime while a
    /// registry exists.
    UnsupportedCaptureRuntime { bin: String },
    /// The process was interrupted by a registry shutdown request.
    Interrupted { bin: String, signal: SignalType, output: Option<Output> },
}

/// The exit code an error carries, for the non-zero exit errors only.
pub open spec fn error_exit_code(error: ProcessError) -> Option<i32> {
    match error {
        ProcessError::ExitNonZero { code, .. } => code,
        ProcessError::ExitNonZeroWithOutput { code, .. } => code,
        _ => None,
    }
}

impl ProcessError {
    /// Return the underlying process exit code, if this error represents
    /// a process that exited with a non-zero status (and not a signal).
    pub fn get_exit_code(&self) -> (r: Option<i32>)
        ensures
            r == error_exit_code(*self),
    {
        match self {
            ProcessError::ExitNonZero { code, .. } => *code,
            ProcessError::ExitNonZeroWithOutput { code, .. } => *code,
            _ => None,
        }
    }
}

} // verus!
