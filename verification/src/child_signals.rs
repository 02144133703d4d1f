//! The bookkeeping of a shared child process handle: the first signal
//! delivered to it (which decides how its exit is reported), whether its
//! output readers were told to stop, and whether dropping the original
//! handle hands the child to cleanup.

use crate::signal::{convert_exit_status, converted_exit, ChildExit, ExitStatus, SignalType};
use vstd::prelude::*;

verus! {

/// What delivering a signal to a child comes to.
#[derive(Debug)]
pub enum SignalAction {
    /// The child had already exited with this status; nothing is sent.
    Exited(ExitStatus),
    /// The child has no pid any more; nothing is sent.
    Gone,
    /// Send the signal to this pid.
    Deliver(u32),
}

/// The bookkeeping of a shared child handle.
#[derive(Clone, Copy, Debug)]
pub struct ChildSignals {
    first_signal: Option<SignalType>,
    output_stopped: bool,
    cleanup: bool,
}

impl ChildSignals {
    /// The first signal delivered, if any.
    pub closed spec fn first(self) -> Option<SignalType> {
        self.first_signal
    }

    /// Whether output readers were told to stop.
    pub closed spec fn stopped(self) -> bool {
        self.output_stopped
    }

    /// Whether dropping the original handle still hands the child to cleanup.
    pub closed spec fn armed(self) -> bool {
        self.cleanup
    }

    /// A fresh handle: no signal delivered, output flowing, cleanup armed.
    pub fn new() -> (r: ChildSignals)
        ensures
            r.first() is None,
            !r.stopped(),
            r.armed(),
    {
        ChildSignals { first_signal: None, output_stopped: false, cleanup: true }
    }

    /// Decide how to deliver `signal`, given the child's status if it has
    /// exited and its pid while it has one. A kill stops the output
    /// readers even of a child that has exited.
    pub fn plan_signal(&mut self, status: Option<ExitStatus>, pid: Option<u32>, signal: SignalType) -> (r: SignalAction)
        ensures
            status matches Some(s) ==> (r matches SignalAction::Exited(x) && x == s),
            status is None && pid is None ==> r is Gone,
            status is None && pid is Some ==> r == SignalAction::Deliver(pid->0),
            final(self).first() == old(self).first(),
            final(self).armed() == old(self).armed(),
            final(self).stopped() == (old(self).stopped() || (status is Some && signal == SignalType::Kill)),
    {
        match status {
            Some(status) => {
                if signal == SignalType::Kill {
                    self.output_stopped = true;
                }
                SignalAction::Exited(status)
            },
            None => match pid {
                None => SignalAction::Gone,
                Some(pid) => SignalAction::Deliver(pid),
            },
        }
    }

    /// Record that `signal` was delivered: the first delivered signal is
    /// kept, and a kill stops the output readers.
    pub fn delivered(&mut self, signal: SignalType)
        ensures
            final(self).first() == after_delivery(old(self).first(), signal),
            final(self).stopped() == (old(self).stopped() || signal == SignalType::Kill),
            final(self).armed() == old(self).armed(),
    {
        if self.first_signal.is_none() {
            self.first_signal = Some(signal);
        }
        if signal == SignalType::Kill {
            self.output_stopped = true;
        }
    }

    /// Tell the output readers to stop.
    pub fn stop_output(&mut self)
        ensures
            final(self).stopped(),
            final(self).first() == old(self).first(),
            final(self).armed() == old(self).armed(),
    {
        self.output_stopped = true;
    }

    /// Whether output readers were told to stop.
    pub fn output_stopped(&self) -> (r: bool)
        ensures
            r == self.stopped(),
    {
        self.output_stopped
    }

    /// Disarm the cleanup on drop (the child was released).
    pub fn stop_cleanup(&mut self)
        ensures
            !final(self).armed(),
            final(self).first() == old(self).first(),
            final(self).stopped() == old(self).stopped(),
    {
        self.cleanup = false;
    }

    /// Whether dropping a handle hands the child to cleanup: only the
    /// original handle, once, while armed.
    pub fn hand_to_cleanup(&mut self, original: bool) -> (r: bool)
        ensures
            r == (original && old(self).armed()),
            final(self).armed() == (old(self).armed() && !original),
            final(self).first() == old(self).first(),
            final(self).stopped() == old(self).stopped(),
    {
        if original && self.cleanup {
            self.cleanup = false;
            true
        } else {
            false
        }
    }

    /// How the child's exit with `status` is reported: a signal in the
    /// status wins, then the first signal delivered.
    pub fn exit_of(&self, status: ExitStatus) -> (r: ChildExit)
        ensures
            r == converted_exit(status, self.first()),
    {
        convert_exit_status(status, self.first_signal)
    }
}

/// The first delivered signal after delivering `s`.
pub open spec fn after_delivery(first: Option<SignalType>, s: SignalType) -> Option<SignalType> {
    if first is Some {
        first
    } else {
        Some(s)
    }
}

/// The first signal delivered to a child is kept whatever is delivered
/// after it, so its exit is reported by the signal that stopped it.
pub proof fn law_first_signal_kept(first: Option<SignalType>, a: SignalType, b: SignalType)
    ensures
        after_delivery(None, a) == Some(a),
        after_delivery(after_delivery(first, a), b) == after_delivery(first, a),
{
}

} // verus!
