use vstd::prelude::*;

verus! {

/// A signal that can be sent to a running child process.
#[derive(Clone, Copy, Debug, PartialEq, Eq, Structural)]
pub enum SignalType {
    /// Request the process interrupt itself (`SIGINT`, `CTRL-C`).
    Interrupt,
    /// Force the process to stop immediately (`SIGKILL`, force terminate).
    Kill,
    /// Request the process quit and dump core (`SIGQUIT`).
    Quit,
    /// Request the process terminate gracefully (`SIGTERM`).
    Terminate,
}

/// The Unix signal number of each signal type.
pub open spec fn signal_code(signal: SignalType) -> i32 {
    match signal {
        SignalType::Interrupt => 2,
        SignalType::Quit => 3,
        SignalType::Kill => 9,
        SignalType::Terminate => 15,
    }
}

impl SignalType {
    /// Return the Unix signal number for this signal.
    pub fn get_code(&self) -> (code: i32)
        ensures
            code == signal_code(*self),
    {
        match self {
            SignalType::Interrupt => 2,
            SignalType::Quit => 3,
            SignalType::Kill => 9,
            SignalType::Terminate => 15,
        }
    }
}

} // verus!

verus! {

/// The Unix signal number of `SIGINT`.
pub const SIGINT: i32 = 2;

/// The Unix signal number of `SIGKILL`.
pub const SIGKILL: i32 = 9;

/// The error number `kill(2)` sets when no process has the pid (`ESRCH`).
pub const ESRCH: i32 = 3;

/// The error number `kill(2)` sets when the caller may not signal the
/// target (`EPERM`).
pub const EPERM: i32 = 1;

/// How a process that ran to completion exited, as the platform reports
/// it: the exit code when it exited normally, the signal that ended it
/// otherwise, and the platform's own description of the status.
#[derive(Clone, Debug, PartialEq, Eq)]
pub struct ExitStatus {
    /// The exit code, if the process exited normally.
    pub code: Option<i32>,
    /// The signal that terminated the process, if any (Unix only).
    pub signal: Option<i32>,
    /// The platform's rendering of the status, e.g. `exit status: 1`.
    pub description: String,
}

impl ExitStatus {
    /// A copy of this status.
    pub fn duplicate(&self) -> (r: ExitStatus)
        ensures
            r == *self,
    {
        ExitStatus { code: self.code, signal: self.signal, description: self.description.clone() }
    }

    /// Return the exit code, if the process exited normally.
    pub fn code(&self) -> (r: Option<i32>)
        ensures
            r == self.code,
    {
        self.code
    }

    /// Return the terminating signal, if any.
    pub fn signal(&self) -> (r: Option<i32>)
        ensures
            r == self.signal,
    {
        self.signal
    }

    /// Return true if the process exited normally with code zero.
    pub fn success(&self) -> (r: bool)
        ensures
            r == (self.code == Some(0i32)),
    {
        match self.code {
            Some(code) => code == 0,
            None => false,
        }
    }
}

/// How a child process ended.
#[derive(Clone, Debug, PartialEq, Eq)]
pub enum ChildExit {
    /// The process ran to completion with the given exit status.
    Completed(ExitStatus),
    /// Signalled with `SIGINT`.
    Interrupted,
    /// Signalled with `SIGKILL`.
    Killed,
    /// Signalled with anything else, carrying that signal. On Windows,
    /// where there are no signals, this is the code of the [`SignalType`]
    /// that was requested.
    Terminated(i32),
}

/// The signal that ended a child, or `None` if it ran to completion.
pub open spec fn exit_signal(exit: ChildExit) -> Option<i32> {
    match exit {
        ChildExit::Completed(_) => None,
        ChildExit::Interrupted => Some(SIGINT),
        ChildExit::Killed => Some(SIGKILL),
        ChildExit::Terminated(signal) => Some(signal),
    }
}

impl ChildExit {
    /// A copy of this exit.
    pub fn duplicate(&self) -> (r: ChildExit)
        ensures
            r == *self,
    {
        match self {
            ChildExit::Completed(status) => ChildExit::Completed(status.duplicate()),
            ChildExit::Interrupted => ChildExit::Interrupted,
            ChildExit::Killed => ChildExit::Killed,
            ChildExit::Terminated(signal) => ChildExit::Terminated(*signal),
        }
    }

    /// Return the signal that terminated the child, or `None` if it ran to
    /// completion.
    pub fn signal(&self) -> (r: Option<i32>)
        ensures
            r == exit_signal(*self),
    {
        match self {
            ChildExit::Completed(_) => None,
            ChildExit::Interrupted => Some(SignalType::Interrupt.get_code()),
            ChildExit::Killed => Some(SignalType::Kill.get_code()),
            ChildExit::Terminated(signal) => Some(*signal),
        }
    }

    /// Return true if the child ran to completion.
    pub fn is_completed(&self) -> (r: bool)
        ensures
            r == (*self is Completed),
    {
        match self {
            ChildExit::Completed(_) => true,
            _ => false,
        }
    }
}

/// The exit that a wait status and the signal that was requested, if
/// any, amount to: a signal in the status wins, then the requested one,
/// else the status itself.
pub open spec fn converted_exit(status: ExitStatus, raw_signal: Option<SignalType>) -> ChildExit {
    match status.signal {
        Some(signal) => if signal == SIGINT {
            ChildExit::Interrupted
        } else if signal == SIGKILL {
            ChildExit::Killed
        } else {
            ChildExit::Terminated(signal)
        },
        None => match raw_signal {
            Some(SignalType::Interrupt) => ChildExit::Interrupted,
            Some(SignalType::Kill) => ChildExit::Killed,
            Some(other) => ChildExit::Terminated(signal_code(other)),
            None => ChildExit::Completed(status),
        },
    }
}

/// Map a wait status onto a [`ChildExit`]. The signal in the status is
/// used where the platform reports one; as it sometimes does not (and
/// never on Windows), the signal that was explicitly sent is used next.
pub fn convert_exit_status(status: ExitStatus, raw_signal: Option<SignalType>) -> (r: ChildExit)
    ensures
        r == converted_exit(status, raw_signal),
{
    if let Some(signal) = status.signal {
        return if signal == SIGINT {
            ChildExit::Interrupted
        } else if signal == SIGKILL {
            ChildExit::Killed
        } else {
            ChildExit::Terminated(signal)
        };
    }
    if let Some(signal) = raw_signal {
        return match signal {
            SignalType::Interrupt => ChildExit::Interrupted,
            SignalType::Kill => ChildExit::Killed,
            other => ChildExit::Terminated(other.get_code()),
        };
    }
    ChildExit::Completed(status)
}

/// The arguments of a `kill(2)` call: the target (a pid, or a negated
/// process group id) and the signal number.
#[derive(Clone, Copy, Debug, PartialEq, Eq, Structural)]
pub struct KillCall {
    /// The `pid` argument of `kill(2)`.
    pub target: i32,
    /// The signal number.
    pub signal: i32,
}

/// Plan the `kill(2)` call that sends `signal` to the process `pid`. The
/// pid is reinterpreted as a signed integer, as `pid as i32` does.
pub fn kill(pid: u32, signal: SignalType) -> (r: KillCall)
    ensures
        r.target == pid as i32,
        r.signal == signal_code(signal),
{
    KillCall { target: pid as i32, signal: signal.get_code() }
}

/// Plan the calls that signal each descendant of a process, in order. A
/// failure to signal one is no reason to skip the others.
pub fn kill_descendants(pids: &Vec<u32>, signal: SignalType) -> (r: Vec<KillCall>)
    ensures
        r@.len() == pids@.len(),
        forall|i: int|
            0 <= i < pids@.len() ==> (#[trigger] r@[i]).target == pids@[i] as i32 && r@[i].signal
                == signal_code(signal),
{
    let mut calls: Vec<KillCall> = Vec::new();
    let mut i: usize = 0;
    while i < pids.len()
        invariant
            i <= pids@.len(),
            calls@.len() == i,
            forall|k: int|
                0 <= k < i ==> (#[trigger] calls@[k]).target == pids@[k] as i32 && calls@[k].signal
                    == signal_code(signal),
        decreases pids@.len() - i,
    {
        calls.push(kill(pids[i], signal));
        i = i + 1;
    }
    calls
}

/// Plan the `kill(2)` call that sends `signal` to every process of the
/// group `pgid`: the target is the negated group id. A group id that does
/// not fit a signed integer is an error.
pub fn kill_process_group(pgid: u32, signal: SignalType) -> (r: Option<KillCall>)
    ensures
        pgid <= i32::MAX ==> r == Some(KillCall { target: -(pgid as int) as i32, signal: signal_code(signal) }),
        pgid > i32::MAX ==> r is None,
{
    if pgid > 0x7fff_ffff {
        return None;
    }
    let id = pgid as i32;
    Some(KillCall { target: -id, signal: signal.get_code() })
}

/// The outcome of signalling one process: success, or no such process
/// (the process may have been killed already), are both success.
pub open spec fn kill_succeeded(returned: i32, errno: Option<i32>) -> bool {
    returned == 0 || errno == Some(ESRCH)
}

/// The outcome of signalling a process group: as for one process, and on
/// Apple platforms `EPERM` too, which they report when only the zombie
/// group leader remains.
pub open spec fn group_kill_succeeded(returned: i32, errno: Option<i32>, apple: bool) -> bool {
    returned == 0 || errno == Some(ESRCH) || (apple && errno == Some(EPERM))
}

impl KillCall {
    /// Decide the outcome of this call from what `kill(2)` returned and
    /// the error number it set: `true` when the signal was delivered or
    /// the process no longer exists.
    pub fn succeeded(&self, returned: i32, errno: Option<i32>) -> (r: bool)
        ensures
            r == kill_succeeded(returned, errno),
    {
        returned == 0 || errno == Some(ESRCH)
    }

    /// Decide the outcome of a process group call, see
    /// [`group_kill_succeeded`].
    pub fn group_succeeded(&self, returned: i32, errno: Option<i32>, apple: bool) -> (r: bool)
        ensures
            r == group_kill_succeeded(returned, errno, apple),
    {
        returned == 0 || errno == Some(ESRCH) || (apple && errno == Some(EPERM))
    }
}

} // verus!
