//! The decisions of a registry shutdown: how long running children get
//! after the first signal, when a second signal escalates to a kill or
//! starts a new shutdown, and which children are force killed. The tasks
//! that signal, wait and sleep carry out what these return.

use crate::children::{running_set, ChildTable, ProcessEvent};
use crate::signal::SignalType;
use vstd::prelude::*;

verus! {

/// How a shutdown waits after signalling its children.
#[derive(Clone, Copy, Debug, PartialEq, Eq, Structural)]
pub enum GraceWait {
    /// The signal was already a kill: escalate at once.
    Immediate,
    /// No threshold: wait until another signal arrives.
    UntilSignal,
    /// Wait for another signal, or this many milliseconds.
    UntilSignalOrTimeout(u32),
}

/// How long children get after `signal`: a kill needs no grace, a zero
/// threshold waits on the children indefinitely (until another signal).
pub fn grace_wait(signal: SignalType, threshold: u32) -> (r: GraceWait)
    ensures
        signal == SignalType::Kill ==> r == GraceWait::Immediate,
        signal != SignalType::Kill && threshold == 0 ==> r == GraceWait::UntilSignal,
        signal != SignalType::Kill && threshold > 0 ==> r == GraceWait::UntilSignalOrTimeout(threshold),
{
    if signal == SignalType::Kill {
        GraceWait::Immediate
    } else if threshold == 0 {
        GraceWait::UntilSignal
    } else {
        GraceWait::UntilSignalOrTimeout(threshold)
    }
}

/// What follows the grace period of a shutdown.
#[derive(Clone, Debug, PartialEq, Eq)]
pub enum Escalation {
    /// Every child of this shutdown had already exited when another signal
    /// arrived: stop their output readers and start a new shutdown with it.
    NewRequest(SignalType),
    /// Force kill these children, then stop their output readers.
    Kill(Vec<u32>),
}

/// True when `pid` occurs in `pids`.
pub open spec fn listed(pids: Seq<u32>, pid: u32) -> bool {
    exists|i: int| 0 <= i < pids.len() && pids[i] == pid
}

/// True when some child of `first` is still registered in `running`.
pub open spec fn any_still_running(first: Seq<u32>, running: Seq<u32>) -> bool {
    exists|i: int| 0 <= i < first.len() && listed(running, #[trigger] first[i])
}

/// The test for pids not in `pids`.
pub open spec fn unlisted_in(pids: Seq<u32>) -> spec_fn(u32) -> bool {
    |p: u32| !listed(pids, p)
}

/// `first`, followed by the children of `running` not in it.
pub open spec fn merged(first: Seq<u32>, running: Seq<u32>) -> Seq<u32> {
    first + running.filter(unlisted_in(first))
}

fn contains_pid(pids: &Vec<u32>, pid: u32) -> (r: bool)
    ensures
        r == listed(pids@, pid),
{
    let mut i: usize = 0;
    while i < pids.len()
        invariant
            i <= pids@.len(),
            forall|k: int| 0 <= k < i ==> pids@[k] != pid,
        decreases pids@.len() - i,
    {
        if pids[i] == pid {
            return true;
        }
        i = i + 1;
    }
    false
}

/// Decide what follows the grace period. `first` are the children this
/// shutdown signalled, `repeated` the signal that ended the wait (none
/// when the threshold ran out, a kill when the first signal was one) and
/// `running` the children registered now. A repeated signal force kills
/// the whole registry, including children registered after the shutdown
/// began, unless every child of `first` had exited already, in which case
/// it is a new request rather than an escalation.
pub fn escalation(first: &Vec<u32>, repeated: Option<SignalType>, running: &Vec<u32>) -> (r: Escalation)
    ensures
        repeated is None ==> (r matches Escalation::Kill(pids) && pids@ == first@),
        repeated matches Some(s) ==> (!any_still_running(first@, running@) ==> r == Escalation::NewRequest(s)),
        repeated is Some && any_still_running(first@, running@) ==> (r matches Escalation::Kill(pids) && pids@
            == merged(first@, running@)),
{
    match repeated {
        None => {
            let pids = first.clone();
            assert(pids@ =~= first@);
            Escalation::Kill(pids)
        },
        Some(signal) => {
            let mut any = false;
            let mut i: usize = 0;
            while i < first.len()
                invariant
                    i <= first@.len(),
                    any == exists|k: int| 0 <= k < i && listed(running@, #[trigger] first@[k]),
                decreases first@.len() - i,
            {
                if contains_pid(running, first[i]) {
                    any = true;
                }
                i = i + 1;
            }
            if !any {
                return Escalation::NewRequest(signal);
            }
            let mut pids = first.clone();
            let ghost p = unlisted_in(first@);
            let mut j: usize = 0;
            assert(pids@ =~= first@ + running@.take(0).filter(p));
            while j < running.len()
                invariant
                    j <= running@.len(),
                    p == unlisted_in(first@),
                    pids@ == first@ + running@.take(j as int).filter(p),
                decreases running@.len() - j,
            {
                assert(running@.take(j + 1).drop_last() =~= running@.take(j as int));
                assert(running@.take(j + 1).last() == running@[j as int]);
                reveal(Seq::filter);
                if !contains_pid(first, running[j]) {
                    pids.push(running[j]);
                    assert(pids@ =~= first@ + running@.take(j + 1).filter(p));
                } else {
                    assert(pids@ =~= first@ + running@.take(j + 1).filter(p));
                }
                j = j + 1;
            }
            assert(running@.take(running@.len() as int) =~= running@);
            Escalation::Kill(pids)
        },
    }
}

/// The registered children after a force kill: those it killed are
/// removed, children registered meanwhile by a later signal stay.
pub fn remove_pids(running: &mut Vec<u32>, killed: &Vec<u32>)
    ensures
        final(running)@ == old(running)@.filter(unlisted_in(killed@)),
{
    let ghost orig = running@;
    let ghost p = unlisted_in(killed@);
    let mut kept: Vec<u32> = Vec::new();
    let mut i: usize = 0;
    while i < running.len()
        invariant
            running@ == orig,
            i <= orig.len(),
            p == unlisted_in(killed@),
            kept@ == orig.take(i as int).filter(p),
        decreases orig.len() - i,
    {
        assert(orig.take(i + 1).drop_last() =~= orig.take(i as int));
        assert(orig.take(i + 1).last() == orig[i as int]);
        reveal(Seq::filter);
        if !contains_pid(killed, running[i]) {
            kept.push(running[i]);
        }
        i = i + 1;
    }
    assert(orig.take(orig.len() as int) =~= orig);
    *running = kept;
}

/// Begin shutting down the registered children with `signal`: nothing
/// to do when none is registered; otherwise every registered child is
/// sent the signal, and unregistered once that returns.
pub fn shutdown_targets(registered: &Vec<u32>) -> (r: Option<Vec<u32>>)
    ensures
        registered@.len() == 0 <==> r is None,
        r matches Some(t) ==> t@ == registered@,
{
    if registered.len() == 0 {
        None
    } else {
        let targets = registered.clone();
        assert(targets@ =~= registered@);
        Some(targets)
    }
}

/// How a shutdown of registered children ends.
#[derive(Debug)]
pub struct ShutdownEnd {
    /// The children to kill with [`SignalType::Kill`].
    pub kill: Vec<u32>,
    /// The children whose output readers are stopped.
    pub stop_output: Vec<u32>,
    /// A signal that starts the next shutdown.
    pub pending: Option<SignalType>,
}

/// End a shutdown of the children `first` after its wait, which ended
/// with `repeated` (see [`escalation`]). A new request stops the readers
/// of `first` and is handed back; otherwise the children to force kill are
/// killed, unregistered from `running`, and have their readers stopped.
/// Either way every child of `first` has its output stopped.
pub fn end_shutdown(first: &Vec<u32>, repeated: Option<SignalType>, running: &mut Vec<u32>) -> (r: ShutdownEnd)
    ensures
        forall|i: int| 0 <= i < first@.len() ==> listed(r.stop_output@, #[trigger] first@[i]),
        repeated is None ==> r.kill@ == first@ && r.stop_output@ == first@ && r.pending is None
            && final(running)@ == old(running)@.filter(unlisted_in(first@)),
        repeated is Some && !any_still_running(first@, old(running)@) ==> r.kill@.len() == 0
            && r.stop_output@ == first@ && r.pending == repeated && final(running)@ == old(running)@,
        repeated is Some && any_still_running(first@, old(running)@) ==> r.kill@ == merged(first@, old(running)@)
            && r.stop_output@ == r.kill@ && r.pending is None && final(running)@ == old(running)@.filter(
            unlisted_in(r.kill@),
        ),
{
    let ghost before = running@;
    match escalation(first, repeated, running) {
        Escalation::NewRequest(signal) => {
            let stop_output = first.clone();
            assert(stop_output@ =~= first@);
            assert forall|i: int| 0 <= i < first@.len() implies listed(stop_output@, #[trigger] first@[i]) by {
                assert(stop_output@[i] == first@[i]);
            }
            ShutdownEnd { kill: Vec::new(), stop_output, pending: Some(signal) }
        },
        Escalation::Kill(pids) => {
            remove_pids(running, &pids);
            let stop_output = pids.clone();
            assert(stop_output@ =~= pids@);
            proof {
                assert forall|i: int| 0 <= i < first@.len() implies listed(stop_output@, #[trigger] first@[i]) by {
                    assert(listed(first@, first@[i]));
                    law_escalation_covers(first@, before, first@[i]);
                    if pids@ == first@ {
                        assert(stop_output@[i] == first@[i]);
                    }
                }
            }
            ShutdownEnd { kill: pids, stop_output, pending: None }
        },
    }
}

/// What a shutdown listener received.
#[derive(Clone, Copy, Debug, PartialEq, Eq, Structural)]
pub enum Received {
    /// A signal.
    Signal(SignalType),
    /// Signals were missed because the listener fell behind.
    Lagged,
    /// No signal can arrive any more.
    Closed,
}

/// The signal to shut down with: one held over from the last shutdown
/// comes first; a listener that fell behind missed signals, so it kills;
/// `None` ends the listener.
pub fn next_shutdown_signal(pending: Option<SignalType>, received: Received) -> (r: Option<SignalType>)
    ensures
        pending is Some ==> r == pending,
        pending is None ==> r == match received {
            Received::Signal(s) => Some(s),
            Received::Lagged => Some(SignalType::Kill),
            Received::Closed => None,
        },
{
    match pending {
        Some(signal) => Some(signal),
        None => match received {
            Received::Signal(signal) => Some(signal),
            Received::Lagged => Some(SignalType::Kill),
            Received::Closed => None,
        },
    }
}

/// The signal a repeated receive yields: a failed receive counts as a kill.
pub fn repeated_signal(received: Option<SignalType>) -> (r: SignalType)
    ensures
        r == match received {
            Some(s) => s,
            None => SignalType::Kill,
        },
{
    match received {
        Some(signal) => signal,
        None => SignalType::Kill,
    }
}

/// The poll interval, in milliseconds, of waiting for running processes
/// to shut down.
pub const SHUTDOWN_POLL_MS: u32 = 50;

/// Whether waiting for running processes to shut down goes on: not once
/// none run, and not once `waited` milliseconds reached a nonzero
/// `threshold`.
pub fn keep_waiting(threshold: u32, waited: u32, running: usize) -> (r: bool)
    ensures
        r == (!(threshold > 0 && waited >= threshold) && running != 0),
{
    if threshold > 0 && waited >= threshold {
        return false;
    }
    running != 0
}

/// A wait that polls every [`SHUTDOWN_POLL_MS`] milliseconds stops after
/// at most `threshold / 50 + 1` polls when the threshold is nonzero,
/// whatever runs meanwhile.
pub proof fn law_wait_is_bounded(threshold: u32, polls: nat)
    requires
        threshold > 0,
        polls >= threshold / 50 + 1,
    ensures
        polls * 50 >= threshold,
{
    assert(polls * 50 >= (threshold / 50 + 1) * 50) by (nonlinear_arith)
        requires
            polls >= threshold / 50 + 1,
    ;
    assert((threshold / 50 + 1) * 50 > threshold) by (nonlinear_arith)
        requires
            threshold > 0,
    ;
}

/// The children of a shutdown are always force killed unless a repeated
/// signal found none of them running, and a repeated signal that finds one
/// running kills every registered child too.
pub proof fn law_escalation_covers(first: Seq<u32>, running: Seq<u32>, pid: u32)
    ensures
        listed(first, pid) ==> listed(merged(first, running), pid),
        listed(running, pid) ==> listed(merged(first, running), pid),
{
    let m = merged(first, running);
    let p = unlisted_in(first);
    if listed(first, pid) {
        let i = choose|i: int| 0 <= i < first.len() && first[i] == pid;
        assert(m[i] == pid);
    } else if listed(running, pid) {
        let i = choose|i: int| 0 <= i < running.len() && running[i] == pid;
        running.lemma_filter_contains(p, i);
        let f = running.filter(p);
        let k = choose|k: int| 0 <= k < f.len() && f[k] == pid;
        assert(m[first.len() + k] == pid);
    }
}

/// After a grace period that ended without a forced kill decision, the
/// outcome of the graceful wait of a tracked-children shutdown.
#[derive(Clone, Copy, Debug, PartialEq, Eq, Structural)]
pub enum WaitOutcome {
    /// Every child of the shutdown exited.
    AllExited,
    /// The nonzero threshold ran out.
    ThresholdElapsed,
    /// Another signal arrived.
    Repeated(SignalType),
}

/// Whether a shutdown that finds no child running still stops the output
/// readers of the tracked ones: only for a kill, as readers may be
/// draining pipes held open by the descendants of an exited child.
pub fn stops_output_when_idle(signal: SignalType) -> (r: bool)
    ensures
        r == (signal == SignalType::Kill),
{
    signal == SignalType::Kill
}

/// Whether a tracked-children shutdown force kills, and the signal it
/// hands back to start the next one, after its grace period.
pub open spec fn grace_outcome(signal: SignalType, outcome: WaitOutcome, still_running: bool) -> (bool, Option<SignalType>) {
    if signal == SignalType::Kill {
        (true, None)
    } else {
        match outcome {
            WaitOutcome::AllExited => (false, None),
            WaitOutcome::ThresholdElapsed => (true, None),
            WaitOutcome::Repeated(s) => if still_running {
                (true, None)
            } else {
                (false, Some(s))
            },
        }
    }
}

/// Whether a tracked-children shutdown force kills, and the signal it
/// hands back to start the next one. A kill forces at once; a repeated
/// signal forces while a child of this shutdown still runs, and is
/// otherwise handed back as a new request.
pub fn after_grace(signal: SignalType, outcome: WaitOutcome, still_running: bool) -> (r: (
    bool,
    Option<SignalType>,
))
    ensures
        r == grace_outcome(signal, outcome, still_running),
        signal == SignalType::Kill ==> r == (true, None::<SignalType>),
{
    if signal == SignalType::Kill {
        return (true, None);
    }
    match outcome {
        WaitOutcome::AllExited => (false, None),
        WaitOutcome::ThresholdElapsed => (true, None),
        WaitOutcome::Repeated(s) => if still_running {
            (true, None)
        } else {
            (false, Some(s))
        },
    }
}

/// What a shutdown of the tracked children does first.
#[derive(Debug)]
pub struct ShutdownOpening {
    /// The children to send the signal to (with their trees), which are
    /// also the children the shutdown waits on.
    pub targets: Vec<u32>,
    /// The events to emit, in order.
    pub events: Vec<ProcessEvent>,
    /// Whether to stop the output readers of every tracked child.
    pub stop_output: bool,
    /// Whether the shutdown is already over.
    pub finished: bool,
}

/// Open a shutdown with `signal`. With no child running it is over at
/// once: only `ShutdownFinished` is emitted (a kill still stops the output
/// readers). Otherwise every running child is a target, and
/// `ShutdownStarted` with their pids is emitted first.
pub fn open_shutdown(table: &ChildTable, signal: SignalType) -> (r: ShutdownOpening)
    ensures
        r.targets@.no_duplicates(),
        r.targets@.to_set() == running_set(table@),
        r.targets@.len() == running_set(table@).len(),
        r.finished <==> r.targets@.len() == 0,
        r.events@.len() == 1,
        r.finished ==> r.events@[0] is ShutdownFinished && r.stop_output == (signal == SignalType::Kill),
        !r.finished ==> (r.events@[0] matches ProcessEvent::ShutdownStarted { signal: s, pids } && s == signal
            && pids@ == r.targets@) && !r.stop_output,
{
    let targets = table.list_running();
    proof {
        targets@.unique_seq_to_set();
    }
    let mut events: Vec<ProcessEvent> = Vec::new();
    if targets.len() == 0 {
        events.push(ProcessEvent::ShutdownFinished);
        ShutdownOpening { targets, events, stop_output: stops_output_when_idle(signal), finished: true }
    } else {
        let pids = targets.clone();
        assert(pids@ =~= targets@);
        events.push(ProcessEvent::ShutdownStarted { signal, pids });
        ShutdownOpening { targets, events, stop_output: false, finished: false }
    }
}

/// What a shutdown of the tracked children does after its grace period.
#[derive(Debug)]
pub struct ShutdownClosing {
    /// The events to emit, in order; `ShutdownFinished` comes last.
    pub events: Vec<ProcessEvent>,
    /// The children to force kill (with their trees), then wait on.
    pub kill_targets: Vec<u32>,
    /// Whether to stop the output readers of every tracked child.
    pub stop_output: bool,
    /// A signal that starts the next shutdown.
    pub pending: Option<SignalType>,
}

/// True when one of `pids` is a tracked child that still runs.
pub open spec fn some_running(table: Map<u32, crate::children::ChildRecord>, pids: Seq<u32>) -> bool {
    exists|i: int| 0 <= i < pids.len() && running_set(table).contains(#[trigger] pids[i])
}

/// Close a shutdown opened with `signal` on `targets`, after its grace
/// period ended with `outcome`; `table` is the registry as it is now. A
/// repeated signal is emitted first. When the shutdown forces (see
/// [`after_grace`]), every child running now, including those tracked
/// after it began, is force killed, `ShutdownForced` with their pids is
/// emitted and the output readers are stopped. `ShutdownFinished` comes
/// last.
pub fn close_shutdown(table: &ChildTable, targets: &Vec<u32>, signal: SignalType, outcome: WaitOutcome) -> (r: ShutdownClosing)
    ensures
        ({
            let (force, pending) = grace_outcome(signal, outcome, some_running(table@, targets@));
            let repeated = signal != SignalType::Kill && outcome is Repeated;
            let n: int = if repeated { 1 } else { 0 };
            &&& r.pending == pending
            &&& r.stop_output == force
            &&& force ==> r.kill_targets@.no_duplicates() && r.kill_targets@.to_set() == running_set(table@)
            &&& !force ==> r.kill_targets@.len() == 0
            &&& r.events@.len() == n + (if force { 1int } else { 0int }) + 1
            &&& repeated ==> (r.events@[0] matches ProcessEvent::Signal(x) && outcome == WaitOutcome::Repeated(x))
            &&& force ==> (r.events@[n] matches ProcessEvent::ShutdownForced { pids } && pids@ == r.kill_targets@)
            &&& r.events@.last() is ShutdownFinished
        }),
{
    let still_running = !table.all_exited(targets);
    let (force, pending) = after_grace(signal, outcome, still_running);
    let mut events: Vec<ProcessEvent> = Vec::new();
    if signal != SignalType::Kill {
        match outcome {
            WaitOutcome::Repeated(s) => events.push(ProcessEvent::Signal(s)),
            _ => {},
        }
    }
    let mut kill_targets: Vec<u32> = Vec::new();
    if force {
        kill_targets = table.list_running();
        let pids = kill_targets.clone();
        assert(pids@ =~= kill_targets@);
        events.push(ProcessEvent::ShutdownForced { pids });
    }
    events.push(ProcessEvent::ShutdownFinished);
    ShutdownClosing { events, kill_targets, stop_output: force, pending }
}

} // verus!
