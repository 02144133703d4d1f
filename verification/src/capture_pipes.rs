//! Capturing a command's output under a combined byte budget, as the
//! registry-aware blocking capture does it: the pipes' accounting, when
//! the capture may run, and the decisions of its polling loops.

use crate::error::{IoError, ProcessError};
use crate::output::Output;
use crate::signal::ChildExit;
use vstd::prelude::*;

verus! {

/// The most bytes read from a pipe at once.
pub const READ_BUFFER_SIZE: usize = 8192;

/// Bounds for synchronous process capture. Durations are in
/// milliseconds. By default, runtime and combined output are unbounded,
/// while draining output after the direct child exits is limited to one
/// second.
#[derive(Clone, Debug)]
pub struct CaptureOptions {
    /// Maximum combined bytes captured from stdout and stderr.
    pub output_limit: Option<usize>,
    /// Maximum time the process may run before it is terminated.
    pub timeout: Option<u64>,
    /// Maximum time to drain stdout and stderr after the process exits;
    /// `None` waits until both pipes close.
    pub output_drain_timeout: Option<u64>,
}

impl Default for CaptureOptions {
    fn default() -> (r: CaptureOptions)
        ensures
            r.output_limit is None,
            r.timeout is None,
            r.output_drain_timeout == Some(1000u64),
    {
        CaptureOptions { output_limit: None, timeout: None, output_drain_timeout: Some(1000) }
    }
}

/// The flavor of the async runtime the caller runs on.
#[derive(Clone, Copy, Debug, PartialEq, Eq, Structural)]
pub enum RuntimeFlavor {
    CurrentThread,
    MultiThread,
}

/// Refuse a blocking capture from a current-thread runtime while a
/// process registry exists: the registry's tasks could not run while the
/// capture blocks that thread.
pub fn validate_runtime_context(bin: &str, has_registry: bool, runtime: Option<RuntimeFlavor>) -> (r: Result<(), ProcessError>)
    ensures
        r is Err <==> has_registry && runtime == Some(RuntimeFlavor::CurrentThread),
        r matches Err(e) ==> (e matches ProcessError::UnsupportedCaptureRuntime { bin: b } && b@ == bin@),
{
    if has_registry && runtime == Some(RuntimeFlavor::CurrentThread) {
        Err(ProcessError::UnsupportedCaptureRuntime { bin: bin.to_owned() })
    } else {
        Ok(())
    }
}

/// How many bytes to read from a pipe at once: one more than the budget
/// left (so that going over is seen), at most [`READ_BUFFER_SIZE`].
pub fn read_size(remaining: usize) -> (r: usize)
    ensures
        r == (if remaining + 1 > READ_BUFFER_SIZE {
            READ_BUFFER_SIZE as int
        } else {
            remaining + 1
        }),
{
    let wanted = remaining.saturating_add(1);
    if wanted > READ_BUFFER_SIZE {
        READ_BUFFER_SIZE
    } else {
        wanted
    }
}

/// The stdout and stderr of a child, captured under a combined budget.
#[derive(Debug)]
pub struct CapturedPipes {
    stdout: Vec<u8>,
    stderr: Vec<u8>,
    stdout_open: bool,
    stderr_open: bool,
    remaining: usize,
    limit: usize,
}

impl CapturedPipes {
    #[verifier::type_invariant]
    closed spec fn wf(&self) -> bool {
        self.stdout@.len() + self.stderr@.len() + self.remaining == self.limit
    }

    /// The bytes kept from stdout.
    pub closed spec fn stdout_bytes(&self) -> Seq<u8> {
        self.stdout@
    }

    /// The bytes kept from stderr.
    pub closed spec fn stderr_bytes(&self) -> Seq<u8> {
        self.stderr@
    }

    /// The bytes still allowed.
    pub closed spec fn budget_left(&self) -> nat {
        self.remaining as nat
    }

    /// The budget the capture started with (unlimited is `usize::MAX`).
    pub closed spec fn budget(&self) -> nat {
        self.limit as nat
    }

    /// Whether each pipe is still open.
    pub closed spec fn open(&self) -> (bool, bool) {
        (self.stdout_open, self.stderr_open)
    }

    /// Start capturing both pipes (each only if the child has it) under
    /// `limit` bytes, unlimited when `None`.
    pub fn new(has_stdout: bool, has_stderr: bool, limit: Option<usize>) -> (r: CapturedPipes)
        ensures
            r.stdout_bytes().len() == 0,
            r.stderr_bytes().len() == 0,
            r.open() == (has_stdout, has_stderr),
            r.budget() == match limit {
                Some(l) => l as nat,
                None => usize::MAX as nat,
            },
            r.budget_left() == r.budget(),
    {
        let remaining = match limit {
            Some(l) => l,
            None => usize::MAX,
        };
        CapturedPipes {
            stdout: Vec::new(),
            stderr: Vec::new(),
            stdout_open: has_stdout,
            stderr_open: has_stderr,
            remaining,
            limit: remaining,
        }
    }

    /// The bytes still allowed.
    pub fn remaining(&self) -> (r: usize)
        ensures
            r == self.budget_left(),
    {
        self.remaining
    }

    /// Take what one read of a pipe gave: `None` when it reached its end,
    /// which closes it; else the bytes read, of which only what the budget
    /// still allows is kept. Returns whether the read went over the budget.
    pub fn accept(&mut self, from_stdout: bool, data: Option<&[u8]>) -> (exceeded: bool)
        ensures
            final(self).budget() == old(self).budget(),
            data is None ==> {
                &&& !exceeded
                &&& final(self).stdout_bytes() == old(self).stdout_bytes()
                &&& final(self).stderr_bytes() == old(self).stderr_bytes()
                &&& final(self).budget_left() == old(self).budget_left()
                &&& final(self).open() == (if from_stdout {
                    (false, old(self).open().1)
                } else {
                    (old(self).open().0, false)
                })
            },
            data matches Some(d) ==> {
                let keep = if d@.len() > old(self).budget_left() {
                    old(self).budget_left() as int
                } else {
                    d@.len() as int
                };
                &&& exceeded == (d@.len() > old(self).budget_left())
                &&& final(self).budget_left() == old(self).budget_left() - keep
                &&& final(self).open() == old(self).open()
                &&& from_stdout ==> final(self).stdout_bytes() == old(self).stdout_bytes() + d@.take(keep)
                    && final(self).stderr_bytes() == old(self).stderr_bytes()
                &&& !from_stdout ==> final(self).stderr_bytes() == old(self).stderr_bytes() + d@.take(keep)
                    && final(self).stdout_bytes() == old(self).stdout_bytes()
            },
    {
        proof {
            use_type_invariant(&*self);
        }
        match data {
            None => {
                if from_stdout {
                    self.stdout_open = false;
                } else {
                    self.stderr_open = false;
                }
                false
            },
            Some(d) => {
                let exceeded = d.len() > self.remaining;
                let keep = if exceeded {
                    self.remaining
                } else {
                    d.len()
                };
                let mut i: usize = 0;
                let ghost start_out = self.stdout@;
                let ghost start_err = self.stderr@;
                let mut out = self.stdout.clone();
                let mut err = self.stderr.clone();
                assert(out@ =~= start_out);
                assert(err@ =~= start_err);
                assert(d@.take(0) =~= Seq::<u8>::empty());
                while i < keep
                    invariant
                        i <= keep,
                        keep <= d@.len(),
                        from_stdout ==> out@ == start_out + d@.take(i as int) && err@ == start_err,
                        !from_stdout ==> err@ == start_err + d@.take(i as int) && out@ == start_out,
                    decreases keep - i,
                {
                    if from_stdout {
                        out.push(d[i]);
                    } else {
                        err.push(d[i]);
                    }
                    assert(d@.take(i + 1) =~= d@.take(i as int).push(d@[i as int]));
                    i = i + 1;
                }
                let remaining = self.remaining - keep;
                let limit = self.limit;
                *self = CapturedPipes {
                    stdout: out,
                    stderr: err,
                    stdout_open: self.stdout_open,
                    stderr_open: self.stderr_open,
                    remaining,
                    limit,
                };
                exceeded
            },
        }
    }

    /// True once both pipes are closed.
    pub fn finished(&self) -> (r: bool)
        ensures
            r == (!self.open().0 && !self.open().1),
    {
        !self.stdout_open && !self.stderr_open
    }

    /// The captured output of a child that exited.
    pub fn take_output(self, exit: ChildExit) -> (r: Output)
        ensures
            r.exit == exit,
            r.stdout@ == self.stdout_bytes(),
            r.stderr@ == self.stderr_bytes(),
    {
        let CapturedPipes { stdout, stderr, .. } = self;
        Output { exit, stderr, stdout }
    }

    /// The bytes kept never exceed the budget: they and the budget left
    /// always add up to it.
    pub fn kept_within_budget(&self) -> (r: bool)
        ensures
            r,
            self.stdout_bytes().len() + self.stderr_bytes().len() + self.budget_left() == self.budget(),
    {
        proof {
            use_type_invariant(self);
        }
        true
    }
}

/// What a read of the pipes amounts to: nothing, or the error the
/// capture fails with, going over the limit or failing to read.
pub fn output_result(bin: &str, limit: Option<usize>, result: Result<bool, IoError>) -> (r: Result<(), ProcessError>)
    requires
        result == Ok::<bool, IoError>(true) ==> limit is Some,
    ensures
        result == Ok::<bool, IoError>(false) ==> r is Ok,
        result == Ok::<bool, IoError>(true) ==> (r matches Err(ProcessError::OutputLimitExceeded { bin: b, limit: l, output })
            && b@ == bin@ && Some(l) == limit && output is None),
        result matches Err(e) ==> (r matches Err(ProcessError::Capture { bin: b, error }) && b@ == bin@ && error == e),
{
    match result {
        Ok(false) => Ok(()),
        Ok(true) => {
            let l = match limit {
                Some(l) => l,
                None => 0,
            };
            Err(ProcessError::OutputLimitExceeded { bin: bin.to_owned(), limit: l, output: None })
        },
        Err(error) => Err(ProcessError::Capture { bin: bin.to_owned(), error }),
    }
}

/// One check of a polling loop that waits for something under an
/// optional deadline.
#[derive(Clone, Copy, Debug, PartialEq, Eq, Structural)]
pub enum PollStep {
    /// What was waited for happened.
    Done,
    /// The deadline passed first.
    TimedOut,
    /// Wait for the next event.
    Continue,
}

/// A check of a loop waiting for `done`: what was waited for wins over a
/// passed deadline, and without a deadline the loop only ends when done.
pub fn poll_step(done: bool, elapsed: u64, deadline: Option<u64>) -> (r: PollStep)
    ensures
        done ==> r == PollStep::Done,
        !done ==> r == (if deadline matches Some(t) && elapsed >= t {
            PollStep::TimedOut
        } else {
            PollStep::Continue
        }),
{
    if done {
        return PollStep::Done;
    }
    match deadline {
        Some(t) => if elapsed >= t {
            PollStep::TimedOut
        } else {
            PollStep::Continue
        },
        None => PollStep::Continue,
    }
}

/// What a capture comes to once the child has exited normally and the
/// pipes were drained (`drained`) or the drain timeout of `timeout_ms`
/// passed first, given what waiting on the child gave. A timed-out drain
/// fails with [`ProcessError::OutputDrainTimeout`] carrying the partial
/// output with the exit; a failed wait fails with the I/O error, inside a
/// cleanup failure around the drain timeout when both happened.
pub fn finish_drained(pipes: CapturedPipes, bin: &str, drained: bool, timeout_ms: u64, exit: Result<ChildExit, IoError>) -> (r: Result<Output, ProcessError>)
    ensures
        drained && exit is Ok ==> (r matches Ok(o) && o.exit == exit->Ok_0 && o.stdout@ == pipes.stdout_bytes()
            && o.stderr@ == pipes.stderr_bytes()),
        drained && exit is Err ==> (r matches Err(ProcessError::Capture { bin: b, error }) && b@ == bin@ && error
            == exit->Err_0),
        !drained && exit is Ok ==> (r matches Err(ProcessError::OutputDrainTimeout { bin: b, timeout_ms: t, output: Some(o) })
            && b@ == bin@ && t == timeout_ms && o.exit == exit->Ok_0 && o.stdout@ == pipes.stdout_bytes()
            && o.stderr@ == pipes.stderr_bytes()),
        !drained && exit is Err ==> (r matches Err(ProcessError::Cleanup { bin: b, error, failure, output }) && b@ == bin@
            && error == exit->Err_0 && output is None && (*failure matches ProcessError::OutputDrainTimeout {
            bin: fb,
            timeout_ms: t,
            output: None,
        } && fb@ == bin@ && t == timeout_ms)),
{
    match exit {
        Ok(exit) => {
            let output = pipes.take_output(exit);
            if drained {
                Ok(output)
            } else {
                Err(ProcessError::OutputDrainTimeout { bin: bin.to_owned(), timeout_ms, output: Some(output) })
            }
        },
        Err(error) => {
            if drained {
                Err(ProcessError::Capture { bin: bin.to_owned(), error })
            } else {
                let failure = ProcessError::OutputDrainTimeout { bin: bin.to_owned(), timeout_ms, output: None };
                Err(ProcessError::Cleanup { bin: bin.to_owned(), error, failure: Box::new(failure), output: None })
            }
        },
    }
}

/// Reads of any sizes, in any order, never keep more than the budget:
/// what each read keeps is taken off what is left.
pub proof fn law_budget_bounds_kept(budget_left: nat, read: nat)
    ensures
        ({
            let keep = if read > budget_left {
                budget_left
            } else {
                read
            };
            &&& keep <= budget_left
            &&& (read > budget_left) == (keep < read)
        }),
{
}

} // verus!
