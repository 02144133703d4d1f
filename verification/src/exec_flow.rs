//! The decisions of running a command asynchronously: which way its
//! output is captured, how reads and input writes are judged, and the
//! order in which the failures of a run are reported. The spawning,
//! reading and writing themselves are driven by the caller.

use crate::command::Command;
use crate::prepared::concat_bytes;
use crate::shutdown::{remove_pids, unlisted_in};
use crate::stream::{collapse_frames, StreamCapture};
use crate::supervision::joined_chunks;
use crate::error::{IoError, IoErrorKind, ProcessError};
use crate::output::Output;
use crate::signal::ChildExit;
use vstd::prelude::*;

verus! {

/// How a captured run goes.
#[derive(Clone, Copy, Debug, PartialEq, Eq, Structural)]
pub enum CaptureRoute {
    /// Stream buffered input while capturing raw output.
    Continuous,
    /// Reuse an identical earlier run's output, else run and cache it.
    Cached,
    /// Run and capture.
    Direct,
}

/// How a run fails to spawn or wait, by what it does with the output.
#[derive(Clone, Copy, Debug, PartialEq, Eq, Structural)]
pub enum ExecMode {
    /// The output is captured.
    Capture,
    /// The output is streamed to the console.
    Stream,
    /// The output is streamed and captured.
    StreamCapture,
}

/// What one read of an output pipe leads to.
#[derive(Clone, Copy, Debug, PartialEq, Eq, Structural)]
pub enum ReadStep {
    /// Keep this many bytes read, and read on.
    Append(usize),
    /// The read was interrupted: read again.
    Retry,
    /// The pipe ended, or failed: stop reading.
    Stop,
}

/// What a write of one input item leads to.
#[derive(Debug)]
pub enum WriteStep {
    /// Write the next item.
    Next,
    /// The child closed its stdin: stop writing, which is no failure.
    Stop,
    /// Fail the run.
    Fail(ProcessError),
}

impl Command {
    /// How a captured run of this command goes: streaming its input when
    /// it asks for a continuous pipe, else through the cache when it
    /// caches output, else directly.
    pub fn capture_route(&self) -> (r: CaptureRoute)
        ensures
            self.continuous_pipe ==> r == CaptureRoute::Continuous,
            !self.continuous_pipe ==> r == (if self.cache && !self.debug.is_test_env && !self.debug.is_daemon_env {
                CaptureRoute::Cached
            } else {
                CaptureRoute::Direct
            }),
    {
        if self.continuous_pipe {
            CaptureRoute::Continuous
        } else if self.should_cache_output() {
            CaptureRoute::Cached
        } else {
            CaptureRoute::Direct
        }
    }
}

/// The error of a run that failed to spawn or to wait.
pub fn exec_error(mode: ExecMode, bin: &str, error: IoError) -> (r: ProcessError)
    ensures
        mode == ExecMode::Capture ==> (r matches ProcessError::Capture { bin: b, error: e } && b@ == bin@ && e == error),
        mode == ExecMode::Stream ==> (r matches ProcessError::Stream { bin: b, error: e } && b@ == bin@ && e == error),
        mode == ExecMode::StreamCapture ==> (r matches ProcessError::StreamCapture { bin: b, error: e } && b@ == bin@
            && e == error),
{
    match mode {
        ExecMode::Capture => ProcessError::Capture { bin: bin.to_owned(), error },
        ExecMode::Stream => ProcessError::Stream { bin: bin.to_owned(), error },
        ExecMode::StreamCapture => ProcessError::StreamCapture { bin: bin.to_owned(), error },
    }
}

/// Judge one read of an output pipe: its end stops reading, as does a
/// failure other than an interruption, which is retried.
pub fn read_step(result: Result<usize, IoError>) -> (r: ReadStep)
    ensures
        result == Ok::<usize, IoError>(0) ==> r == ReadStep::Stop,
        result is Ok && result->Ok_0 > 0 ==> r == ReadStep::Append(result->Ok_0),
        result matches Err(e) ==> r == (if e.kind == IoErrorKind::Interrupted {
            ReadStep::Retry
        } else {
            ReadStep::Stop
        }),
{
    match result {
        Ok(0) => ReadStep::Stop,
        Ok(size) => ReadStep::Append(size),
        Err(error) => if error.kind == IoErrorKind::Interrupted {
            ReadStep::Retry
        } else {
            ReadStep::Stop
        },
    }
}

/// Judge the write of one input item: a child that closed its stdin
/// before consuming all input stops the writing without failing, as its
/// exit status is the outcome; any other failure fails the run.
pub fn input_item_written(bin: &str, result: Result<(), IoError>) -> (r: WriteStep)
    ensures
        result is Ok ==> r is Next,
        result matches Err(e) ==> (if e.kind == IoErrorKind::BrokenPipe {
            r is Stop
        } else {
            r matches WriteStep::Fail(ProcessError::WriteInput { bin: b, error }) && b@ == bin@ && error == e
        }),
{
    match result {
        Ok(()) => WriteStep::Next,
        Err(error) => if error.kind == IoErrorKind::BrokenPipe {
            WriteStep::Stop
        } else {
            WriteStep::Fail(ProcessError::WriteInput { bin: bin.to_owned(), error })
        },
    }
}

/// Judge writing all buffered input at once: only a failure other than
/// the child closing its stdin fails the run.
pub fn input_written_to_child(bin: &str, result: Result<(), IoError>) -> (r: Result<(), ProcessError>)
    ensures
        r is Ok <==> (result is Ok || result->Err_0.kind == IoErrorKind::BrokenPipe),
        r matches Err(ProcessError::WriteInput { bin: b, error }) ==> b@ == bin@ && result == Err::<(), IoError>(error),
        r matches Err(x) ==> x is WriteInput,
{
    match input_item_written(bin, result) {
        WriteStep::Fail(error) => Err(error),
        _ => Ok(()),
    }
}

/// The output of a run that streamed its input: a failed wait is
/// reported first, then a failed input write, else the exit and what was
/// captured.
pub fn continuous_output(
    bin: &str,
    exit: Result<ChildExit, IoError>,
    input: Result<(), ProcessError>,
    stdout: Vec<u8>,
    stderr: Vec<u8>,
) -> (r: Result<Output, ProcessError>)
    ensures
        exit matches Err(e) ==> (r matches Err(ProcessError::Capture { bin: b, error }) && b@ == bin@ && error == e),
        exit is Ok && input is Err ==> r == Err::<Output, ProcessError>(input->Err_0),
        exit is Ok && input is Ok ==> (r matches Ok(o) && o.exit == exit->Ok_0 && o.stdout@ == stdout@ && o.stderr@
            == stderr@),
{
    let exit = match exit {
        Ok(exit) => exit,
        Err(error) => {
            return Err(ProcessError::Capture { bin: bin.to_owned(), error });
        },
    };
    match input {
        Err(error) => Err(error),
        Ok(()) => Ok(Output { exit, stdout, stderr }),
    }
}

proof fn lemma_chunks_concat(chunks: Seq<Vec<u8>>, items: Seq<String>)
    requires
        chunks.len() == items.len(),
        forall|i: int| 0 <= i < items.len() ==> (#[trigger] chunks[i])@ == vstd::utf8::encode_utf8(items[i]@),
    ensures
        joined_chunks(chunks) == concat_bytes(items),
    decreases items.len(),
{
    if items.len() > 0 {
        lemma_chunks_concat(chunks.drop_last(), items.drop_last());
    }
}

impl Command {
    /// Take the buffered input of a run that streams it: the command is
    /// left without input, and the items' bytes are returned in order, to be
    /// written to the child's stdin one after the other, without
    /// separators, before stdin is closed.
    pub fn take_stdin_items(&mut self) -> (r: Vec<Vec<u8>>)
        ensures
            final(self).input@.len() == 0,
            final(self).args == old(self).args,
            final(self).cwd == old(self).cwd,
            final(self).env == old(self).env,
            final(self).exe == old(self).exe,
            final(self).shell == old(self).shell,
            final(self).continuous_pipe == old(self).continuous_pipe,
            final(self).error_on_nonzero == old(self).error_on_nonzero,
            final(self).paths == old(self).paths,
            r@.len() == old(self).input@.len(),
            forall|i: int| 0 <= i < r@.len() ==> (#[trigger] r@[i])@ == vstd::utf8::encode_utf8(old(self).input@[i]@),
            joined_chunks(r@) == concat_bytes(old(self).input@),
    {
        let mut items: Vec<String> = Vec::new();
        std::mem::swap(&mut items, &mut self.input);
        let mut chunks: Vec<Vec<u8>> = Vec::new();
        let mut i: usize = 0;
        while i < items.len()
            invariant
                i <= items@.len(),
                chunks@.len() == i,
                forall|k: int| 0 <= k < i ==> (#[trigger] chunks@[k])@ == vstd::utf8::encode_utf8(items@[k]@),
            decreases items@.len() - i,
        {
            chunks.push(vstd::slice::slice_to_vec(items[i].as_str().as_bytes()));
            i = i + 1;
        }
        proof {
            lemma_chunks_concat(chunks@, items@);
        }
        chunks
    }
}

/// Finish a run that streamed its input: the child `pid` is no longer
/// registered as running once its readers are done, and the run comes to
/// what [`continuous_output`] gives.
pub fn finish_continuous_run(
    running: &mut Vec<u32>,
    pid: u32,
    bin: &str,
    exit: Result<ChildExit, IoError>,
    input: Result<(), ProcessError>,
    stdout: Vec<u8>,
    stderr: Vec<u8>,
) -> (r: Result<Output, ProcessError>)
    ensures
        final(running)@ == old(running)@.filter(unlisted_in(seq![pid])),
        !final(running)@.contains(pid),
        exit matches Err(e) ==> (r matches Err(ProcessError::Capture { bin: b, error }) && b@ == bin@ && error == e),
        exit is Ok && input is Err ==> r == Err::<Output, ProcessError>(input->Err_0),
        exit is Ok && input is Ok ==> (r matches Ok(o) && o.exit == exit->Ok_0 && o.stdout@ == stdout@ && o.stderr@
            == stderr@),
{
    let released = vec![pid];
    assert(released@ =~= seq![pid]);
    remove_pids(running, &released);
    proof {
        let f = unlisted_in(seq![pid]);
        if running@.contains(pid) {
            let k = choose|k: int| 0 <= k < running@.len() && running@[k] == pid;
            assert(f(running@[k])) by {
                old(running)@.filter_lemma(f);
            }
            assert(crate::shutdown::listed(seq![pid], pid)) by {
                assert(seq![pid][0] == pid);
            }
        }
    }
    continuous_output(bin, exit, input, stdout, stderr)
}

/// The output of a run that streamed stdout and stderr to the console
/// while capturing them: a failed wait fails the run, otherwise its
/// output is the exit with each stream's captured bytes, redraw frames
/// collapsed. (Whether a nonzero exit then fails it is
/// [`Command::handle_nonzero_status`]'s decision.)
pub fn stream_capture_output(
    bin: &str,
    exit: Result<ChildExit, IoError>,
    stdout: StreamCapture,
    stderr: StreamCapture,
) -> (r: Result<Output, ProcessError>)
    ensures
        exit matches Err(e) ==> (r matches Err(ProcessError::StreamCapture { bin: b, error }) && b@ == bin@ && error
            == e),
        exit matches Ok(x) ==> (r matches Ok(o) && o.exit == x && o.stdout@ == collapse_frames(stdout.captured@)
            && o.stderr@ == collapse_frames(stderr.captured@)),
{
    let stderr = stderr.finish();
    let stdout = stdout.finish();
    match exit {
        Err(error) => Err(ProcessError::StreamCapture { bin: bin.to_owned(), error }),
        Ok(exit) => Ok(Output { exit, stdout, stderr }),
    }
}

} // verus!
