//! The decisions of capturing a command synchronously with reader and
//! writer threads: the shared output budget, when the waiting loop stops
//! and with which error, and how finished workers are judged. The threads,
//! pipes and clocks are driven by the caller.

use crate::error::{capture_error, CaptureError, IoError, IoErrorKind};
use vstd::prelude::*;

verus! {

/// Configuration for capturing a command with the blocking executor.
#[derive(Clone, Debug)]
pub struct CaptureOptions {
    /// Kill the command if it runs longer than this many milliseconds.
    pub timeout: Option<u64>,
    /// Maximum combined number of bytes captured from stdout and stderr.
    pub output_limit: Option<usize>,
}

impl Default for CaptureOptions {
    fn default() -> (r: CaptureOptions)
        ensures
            r.timeout is None,
            r.output_limit is None,
    {
        CaptureOptions { timeout: None, output_limit: None }
    }
}

/// Where a captured stream went: a caller-owned file, with the bytes
/// written to it, or memory.
#[derive(Debug)]
pub enum CapturedOutput {
    File(u64),
    Memory(Vec<u8>),
}

impl CapturedOutput {
    /// The bytes written to the file the stream was captured to.
    pub fn into_file_len(self) -> (r: u64)
        requires
            self is File,
        ensures
            self matches CapturedOutput::File(len) && r == len,
    {
        match self {
            CapturedOutput::File(len) => len,
            CapturedOutput::Memory(_) => 0,
        }
    }

    /// The bytes the stream was captured to in memory.
    pub fn into_memory(self) -> (r: Vec<u8>)
        requires
            self is Memory,
        ensures
            self matches CapturedOutput::Memory(bytes) && r@ == bytes@,
    {
        match self {
            CapturedOutput::File(_) => Vec::new(),
            CapturedOutput::Memory(output) => output,
        }
    }
}

/// The combined output size after a read, and whether the read is kept.
/// Without a limit nothing is counted and every read is kept. With one,
/// the (saturating) total grows by every read, and a read that takes it
/// past the limit is dropped, which marks the limit as exceeded.
pub fn account_read(total: usize, read: usize, limit: Option<usize>) -> (r: (usize, bool))
    ensures
        limit is None ==> r == (total, true),
        limit matches Some(l) ==> r.0 == (if total + read > usize::MAX {
            usize::MAX as int
        } else {
            total + read
        }) && r.1 == (r.0 <= l),
{
    match limit {
        None => (total, true),
        Some(limit) => {
            let size = total.saturating_add(read);
            (size, size <= limit)
        },
    }
}

/// Bytes written so far to a file after another read, saturating.
pub fn written_after(len: u64, read: usize) -> (r: u64)
    ensures
        r == (if len + read > u64::MAX {
            u64::MAX as int
        } else {
            len + read
        }),
{
    let read64: u64 = if read as u128 > u64::MAX as u128 {
        u64::MAX
    } else {
        read as u64
    };
    len.saturating_add(read64)
}

/// The point at which the capture times out, in milliseconds on the
/// caller's clock: none without a timeout, refused when it overflows.
pub fn capture_deadline(now: u64, timeout: Option<u64>) -> (r: Result<Option<u64>, CaptureError>)
    ensures
        timeout is None ==> r == Ok::<Option<u64>, CaptureError>(None),
        timeout matches Some(t) ==> (now + t <= u64::MAX ==> r == Ok::<Option<u64>, CaptureError>(Some((now + t) as u64))),
        timeout matches Some(t) ==> (now + t > u64::MAX ==> (r matches Err(CaptureError::Capture(e)) && e.message@
            == "process timeout is too large"@ && e.kind == IoErrorKind::Other && e.raw_os_error is None)),
{
    match timeout {
        None => Ok(None),
        Some(t) => match now.checked_add(t) {
            Some(deadline) => Ok(Some(deadline)),
            None => Err(capture_error("process timeout is too large")),
        },
    }
}

/// One check of the waiting loop.
#[derive(Debug)]
pub enum WaitStep {
    /// The process exited and every worker finished: join them.
    Done,
    /// Stop the process and workers, and fail with this error.
    Abort(CaptureError),
    /// Sleep, then check again.
    Sleep,
}

/// What one check of the waiting loop decides. `exit` is what polling the
/// child gave (`Ok(true)` once it has exited, now or before), and
/// `past_deadline` whether the deadline has passed. An exceeded output
/// limit wins, then a failed poll; the loop is done once the process has
/// exited and stdin, stdout and stderr workers finished; else the deadline
/// times it out.
pub fn wait_step(
    exceeded: bool,
    exit: Result<bool, IoError>,
    stdin_finished: bool,
    stdout_finished: bool,
    stderr_finished: bool,
    past_deadline: bool,
    options: &CaptureOptions,
) -> (r: WaitStep)
    ensures
        exceeded ==> (r matches WaitStep::Abort(CaptureError::OutputLimitExceeded { limit }) && limit == match options.output_limit {
            Some(l) => l,
            None => 0,
        }),
        !exceeded && exit is Err ==> (r matches WaitStep::Abort(CaptureError::Capture(e)) && e == exit->Err_0),
        !exceeded && exit == Ok::<bool, IoError>(true) && stdin_finished && stdout_finished && stderr_finished ==> r is Done,
        !exceeded && exit is Ok && !(exit == Ok::<bool, IoError>(true) && stdin_finished && stdout_finished
            && stderr_finished) ==> (if past_deadline {
            (r matches WaitStep::Abort(CaptureError::Timeout { timeout_ms }) && timeout_ms == match options.timeout {
                Some(t) => t,
                None => 0,
            })
        } else {
            r is Sleep
        }),
{
    if exceeded {
        let limit = match options.output_limit {
            Some(l) => l,
            None => 0,
        };
        return WaitStep::Abort(CaptureError::OutputLimitExceeded { limit });
    }
    let exited = match exit {
        Ok(exited) => exited,
        Err(error) => {
            return WaitStep::Abort(CaptureError::Capture(error));
        },
    };
    if exited && stdin_finished && stdout_finished && stderr_finished {
        return WaitStep::Done;
    }
    if past_deadline {
        let timeout_ms = match options.timeout {
            Some(t) => t,
            None => 0,
        };
        return WaitStep::Abort(CaptureError::Timeout { timeout_ms });
    }
    WaitStep::Sleep
}

/// The result of joining an output reader: a reader that panicked is a
/// capture failure, as is its I/O error.
pub fn reader_outcome(joined: Option<Result<CapturedOutput, IoError>>) -> (r: Result<CapturedOutput, CaptureError>)
    ensures
        joined is None ==> (r matches Err(CaptureError::Capture(e)) && e.message@ == "process output reader panicked"@),
        joined matches Some(Err(e)) ==> (r matches Err(CaptureError::Capture(x)) && x == e),
        joined matches Some(Ok(o)) ==> r == Ok::<CapturedOutput, CaptureError>(o),
{
    match joined {
        None => Err(capture_error("process output reader panicked")),
        Some(Err(e)) => Err(CaptureError::Capture(e)),
        Some(Ok(o)) => Ok(o),
    }
}

/// The result of joining the input writer: a writer that panicked is a
/// capture failure, its I/O error a failure to write input.
pub fn writer_outcome(joined: Option<Result<(), IoError>>) -> (r: Result<(), CaptureError>)
    ensures
        joined is None ==> (r matches Err(CaptureError::Capture(e)) && e.message@ == "process input writer panicked"@),
        joined matches Some(Err(e)) ==> (r matches Err(CaptureError::WriteInput(x)) && x == e),
        joined matches Some(Ok(())) ==> r is Ok,
{
    match joined {
        None => Err(capture_error("process input writer panicked")),
        Some(Err(e)) => Err(CaptureError::WriteInput(e)),
        Some(Ok(())) => Ok(()),
    }
}

/// The result of writing all input to the child: a child that closed its
/// stdin early (a broken pipe) is no failure.
pub fn input_written(result: Result<(), IoError>) -> (r: Result<(), IoError>)
    ensures
        r is Err <==> (result is Err && result->Err_0.kind != IoErrorKind::BrokenPipe),
        r matches Err(e) ==> result == Err::<(), IoError>(e),
{
    match result {
        Err(error) => if error.kind != IoErrorKind::BrokenPipe {
            Err(error)
        } else {
            Ok(())
        },
        Ok(()) => Ok(()),
    }
}

/// Reads kept under a limit never take the counted total past it: the
/// total only grows, and a kept read leaves it within the limit. (At a
/// limit of `usize::MAX` the saturated total can no longer tell.)
pub proof fn law_kept_reads_within_limit(total: usize, read: usize, limit: usize)
    requires
        limit < usize::MAX,
    ensures
        ({
            let size = if total + read > usize::MAX {
                usize::MAX as int
            } else {
                total + read
            };
            &&& size >= total
            &&& size <= limit ==> total + read <= limit
        }),
{
}

} // verus!
