//! A registry's admission state, process identities, cache epochs and
//! coordinated shutdown, as transitions on its state. The tasks that
//! spawn, supervise and signal processes run these transitions and carry
//! out what they return.

use crate::error::IoError;
use crate::output::Output;
use crate::output_cache::{
    lookup_result, after_lookup, size_of_output, stored, CacheKey, EntryView, OutputCache,
};
use crate::registry_types::{ProcessId, RegistryEvent, RegistryOptions, RegistryState};
use crate::signal::SignalType;
use vstd::prelude::*;

verus! {

/// The state a registry's tasks share.
#[derive(Debug)]
pub struct State {
    /// Whether new work is admitted.
    pub phase: RegistryState,
    /// The identity the next admitted process gets.
    pub next_id: u64,
    /// The processes still being supervised.
    pub running: Vec<ProcessId>,
    /// Outputs of earlier successful runs.
    pub cache: OutputCache,
    /// Bumped on every cache clear, so that runs which started before a
    /// clear do not repopulate the cache.
    pub cache_epoch: u64,
}

/// How shutdown begins.
#[derive(Debug)]
pub enum ShutdownStart {
    /// A shutdown is already in progress; join it.
    InProgress,
    /// Shutdown begins: signal these processes, and announce the change.
    Started { processes: Vec<ProcessId>, event: RegistryEvent },
}

/// The epoch after a cache clear.
pub open spec fn next_epoch(epoch: u64) -> u64 {
    if epoch == u64::MAX {
        0
    } else {
        (epoch + 1) as u64
    }
}

/// True when a finished run's output is stored: it started in the
/// current cache epoch, succeeded, and caching is enabled with room for
/// its bytes.
pub open spec fn cache_accepts(epoch: u64, current: u64, output: Output, options: RegistryOptions) -> bool {
    &&& epoch == current
    &&& crate::output::exit_code(output.exit) == Some(0i32)
    &&& options.cache_capacity > 0
    &&& size_of_output(output@) <= options.cache_max_bytes
    &&& options.cache_ttl > 0
}

/// The test for identities other than `id`.
pub open spec fn other_than(id: ProcessId) -> spec_fn(ProcessId) -> bool {
    |x: ProcessId| x != id
}

/// The running processes without `id`.
pub open spec fn without(running: Seq<ProcessId>, id: ProcessId) -> Seq<ProcessId> {
    running.filter(other_than(id))
}

/// Refuse work unless the registry is running.
pub fn ensure_running(state: &State) -> (r: Result<(), IoError>)
    ensures
        r is Ok <==> state.phase == RegistryState::Running,
        r matches Err(e) ==> e.message@ == "process registry is not accepting work"@,
{
    if state.phase != RegistryState::Running {
        return Err(IoError::other("process registry is not accepting work"));
    }
    Ok(())
}

/// The first error among signal deliveries, which were all attempted.
pub fn first_error(results: &Vec<Result<(), IoError>>) -> (r: Result<(), IoError>)
    ensures
        r is Ok <==> forall|i: int| 0 <= i < results@.len() ==> results@[i] is Ok,
        r matches Err(e) ==> exists|i: int|
            0 <= i < results@.len() && results@[i] == Err::<(), IoError>(e) && forall|j: int|
                0 <= j < i ==> results@[j] is Ok,
{
    let mut i: usize = 0;
    while i < results.len()
        invariant
            i <= results@.len(),
            forall|j: int| 0 <= j < i ==> results@[j] is Ok,
        decreases results@.len() - i,
    {
        match &results[i] {
            Err(e) => {
                return Err(e.duplicate());
            },
            Ok(()) => {},
        }
        i = i + 1;
    }
    Ok(())
}

/// The result of a completed shutdown: the error of signalling, else the
/// first error a process finished with, else success.
pub fn shutdown_result(signalled: Result<(), IoError>, finished: &Vec<Option<IoError>>) -> (r: Result<(), IoError>)
    ensures
        signalled is Err ==> r == signalled,
        signalled is Ok ==> (r is Ok <==> forall|i: int| 0 <= i < finished@.len() ==> finished@[i] is None),
        signalled is Ok && r is Err ==> exists|i: int|
            0 <= i < finished@.len() && r->Err_0.message@ == finished@[i]->0.message@ && r->Err_0.kind
                == finished@[i]->0.kind && forall|j: int| 0 <= j < i ==> finished@[j] is None,
{
    match signalled {
        Err(e) => {
            return Err(e);
        },
        Ok(()) => {},
    }
    let mut i: usize = 0;
    while i < finished.len()
        invariant
            signalled is Ok,
            i <= finished@.len(),
            forall|j: int| 0 <= j < i ==> finished@[j] is None,
        decreases finished@.len() - i,
    {
        match &finished[i] {
            Some(error) => {
                return Err(crate::error::shared_error(error));
            },
            None => {},
        }
        i = i + 1;
    }
    Ok(())
}

/// The signal a shutdown starts with. Windows has no targeted graceful
/// interrupt, so there an interrupt becomes a terminate.
pub fn initial_shutdown_signal(signal: SignalType, windows: bool) -> (r: SignalType)
    ensures
        r == (if windows && signal == SignalType::Interrupt {
            SignalType::Terminate
        } else {
            signal
        }),
{
    if windows && signal == SignalType::Interrupt {
        SignalType::Terminate
    } else {
        signal
    }
}

fn remove_id(running: &mut Vec<ProcessId>, id: ProcessId)
    ensures
        final(running)@ == without(old(running)@, id),
{
    let ghost orig = running@;
    let ghost p = other_than(id);
    let mut kept: Vec<ProcessId> = Vec::new();
    let mut i: usize = 0;
    while i < running.len()
        invariant
            running@ == orig,
            i <= orig.len(),
            kept@ == orig.take(i as int).filter(p),
            p == other_than(id),
        decreases orig.len() - i,
    {
        assert(orig.take(i + 1).drop_last() =~= orig.take(i as int));
        assert(orig.take(i + 1).last() == orig[i as int]);
        reveal(Seq::filter);
        if running[i] != id {
            kept.push(running[i]);
        }
        i = i + 1;
    }
    assert(orig.take(orig.len() as int) =~= orig);
    *running = kept;
}

impl State {
    /// A running registry with nothing admitted or cached yet.
    pub fn new() -> (r: State)
        ensures
            r.phase == RegistryState::Running,
            r.next_id == 1,
            r.running@.len() == 0,
            r.cache@.len() == 0,
            r.cache_epoch == 0,
    {
        State {
            phase: RegistryState::Running,
            next_id: 1,
            running: Vec::new(),
            cache: OutputCache::new(),
            cache_epoch: 0,
        }
    }

    /// Move to `phase`, unless a shutdown is in progress. Returns the
    /// event to announce, if the phase changed.
    pub fn set_state(&mut self, phase: RegistryState) -> (r: Result<Option<RegistryEvent>, IoError>)
        ensures
            old(self).phase == RegistryState::ShuttingDown ==> r is Err && *final(self) == *old(self),
            r matches Err(e) ==> e.message@ == "registry shutdown is in progress"@,
            old(self).phase != RegistryState::ShuttingDown ==> {
                &&& final(self).phase == phase
                &&& final(self).next_id == old(self).next_id
                &&& final(self).running == old(self).running
                &&& final(self).cache == old(self).cache
                &&& final(self).cache_epoch == old(self).cache_epoch
                &&& r matches Ok(ev) && ev == (if old(self).phase != phase {
                    Some(RegistryEvent::StateChanged(phase))
                } else {
                    None
                })
            },
    {
        if self.phase == RegistryState::ShuttingDown {
            return Err(IoError::other("registry shutdown is in progress"));
        }
        if self.phase != phase {
            self.phase = phase;
            return Ok(Some(RegistryEvent::StateChanged(phase)));
        }
        Ok(None)
    }

    /// Discard cached results, and start a new cache epoch so that runs
    /// already under way do not repopulate the cache.
    pub fn clear_cache(&mut self)
        ensures
            final(self).cache@.len() == 0,
            final(self).cache_epoch == next_epoch(old(self).cache_epoch),
            final(self).phase == old(self).phase,
            final(self).next_id == old(self).next_id,
            final(self).running == old(self).running,
    {
        self.cache.clear();
        self.cache_epoch = self.cache_epoch.wrapping_add(1);
    }

    /// Return the cached output for `key`, dropping expired entries and
    /// marking a hit as most recently used.
    pub fn cached(&mut self, key: &CacheKey, options: &RegistryOptions, now: u64) -> (r: Option<Output>)
        ensures
            r is None <==> lookup_result(old(self).cache@, key@, options.cache_ttl, now) is None,
            r matches Some(o) ==> lookup_result(old(self).cache@, key@, options.cache_ttl, now) == Some(o@),
            final(self).cache@ == after_lookup(old(self).cache@, key@, options.cache_ttl, now),
            final(self).phase == old(self).phase,
            final(self).next_id == old(self).next_id,
            final(self).running == old(self).running,
            final(self).cache_epoch == old(self).cache_epoch,
    {
        self.cache.lookup(key, options.cache_ttl, now)
    }

    /// Store a finished run's output at time `now`, if the cache accepts
    /// it (see [`cache_accepts`]).
    pub fn cache(&mut self, key: CacheKey, epoch: u64, output: &Output, options: &RegistryOptions, now: u64)
        ensures
            cache_accepts(epoch, old(self).cache_epoch, *output, *options) ==> final(self).cache@ == stored(
                old(self).cache@,
                EntryView { key: key@, output: output@, inserted: now },
                options.cache_ttl,
                options.cache_capacity as nat,
                options.cache_max_bytes as nat,
            ),
            !cache_accepts(epoch, old(self).cache_epoch, *output, *options) ==> final(self).cache@
                == old(self).cache@,
            final(self).phase == old(self).phase,
            final(self).next_id == old(self).next_id,
            final(self).running == old(self).running,
            final(self).cache_epoch == old(self).cache_epoch,
    {
        let size = crate::output_cache::output_size(output);
        if epoch != self.cache_epoch || !output.success() || options.cache_capacity == 0 || size
            > options.cache_max_bytes || options.cache_ttl == 0 {
            return ;
        }
        let copy = output.duplicate();
        self.cache.store(key, copy, options.cache_capacity, options.cache_max_bytes, options.cache_ttl, now);
    }

    /// Take the identity for a new process: refused unless running, and when identities
    /// are exhausted. Returns the identity the process gets.
    pub fn take_next_id(&mut self) -> (r: Result<ProcessId, IoError>)
        ensures
            r is Ok <==> old(self).phase == RegistryState::Running && old(self).next_id < u64::MAX,
            r matches Ok(id) ==> id.number() == old(self).next_id && final(self).next_id == old(self).next_id + 1,
            r matches Err(e) ==> (old(self).phase != RegistryState::Running ==> e.message@
                == "process registry is not accepting work"@),
            r matches Err(e) ==> (old(self).phase == RegistryState::Running ==> e.message@
                == "process identity space exhausted"@),
            r is Err ==> final(self).next_id == old(self).next_id,
            final(self).phase == old(self).phase,
            final(self).running == old(self).running,
            final(self).cache == old(self).cache,
            final(self).cache_epoch == old(self).cache_epoch,
    {
        ensure_running(self)?;
        let id = ProcessId::from_number(self.next_id);
        match self.next_id.checked_add(1) {
            Some(next) => {
                self.next_id = next;
                Ok(id)
            },
            None => Err(IoError::other("process identity space exhausted")),
        }
    }

    /// Record a spawned process as supervised. Returns the event to announce.
    pub fn register(&mut self, id: ProcessId, pid: u32) -> (r: RegistryEvent)
        ensures
            final(self).running@ == old(self).running@.push(id),
            r == (RegistryEvent::Spawned { id, pid }),
            final(self).phase == old(self).phase,
            final(self).next_id == old(self).next_id,
            final(self).cache == old(self).cache,
            final(self).cache_epoch == old(self).cache_epoch,
    {
        self.running.push(id);
        RegistryEvent::Spawned { id, pid }
    }

    /// A supervisor finished: cache a successful output when asked to,
    /// stop supervising the process, and return the event to announce.
    pub fn finish(
        &mut self,
        id: ProcessId,
        result: &Result<Output, IoError>,
        cache: Option<(CacheKey, u64)>,
        options: &RegistryOptions,
        now: u64,
    ) -> (r: RegistryEvent)
        ensures
            final(self).running@ == without(old(self).running@, id),
            match (result, cache) {
                (Ok(output), Some((key, epoch))) => if cache_accepts(
                    epoch,
                    old(self).cache_epoch,
                    *output,
                    *options,
                ) {
                    final(self).cache@ == stored(
                        old(self).cache@,
                        EntryView { key: key@, output: output@, inserted: now },
                        options.cache_ttl,
                        options.cache_capacity as nat,
                        options.cache_max_bytes as nat,
                    )
                } else {
                    final(self).cache@ == old(self).cache@
                },
                _ => final(self).cache@ == old(self).cache@,
            },
            result matches Ok(output) ==> r == (RegistryEvent::Completed { id, exit: output.exit }),
            result matches Err(error) ==> r == (RegistryEvent::Failed { id, error: *error }),
            final(self).phase == old(self).phase,
            final(self).next_id == old(self).next_id,
            final(self).cache_epoch == old(self).cache_epoch,
    {
        match (result, cache) {
            (Ok(output), Some((key, epoch))) => {
                self.cache(key, epoch, output, options, now);
            },
            _ => {},
        }
        remove_id(&mut self.running, id);
        match result {
            Ok(output) => RegistryEvent::Completed { id, exit: output.exit.duplicate() },
            Err(error) => RegistryEvent::Failed { id, error: error.duplicate() },
        }
    }

    /// Nothing is being supervised.
    pub fn is_idle(&self) -> (r: bool)
        ensures
            r == (self.running@.len() == 0),
    {
        self.running.len() == 0
    }

    /// Begin a shutdown: join one in progress, or stop admissions and
    /// return the processes to signal.
    pub fn begin_shutdown(&mut self) -> (r: ShutdownStart)
        ensures
            old(self).phase == RegistryState::ShuttingDown ==> r is InProgress && *final(self)
                == *old(self),
            old(self).phase != RegistryState::ShuttingDown ==> {
                &&& r matches ShutdownStart::Started { processes, event }
                &&& processes@ == old(self).running@
                &&& event == RegistryEvent::StateChanged(RegistryState::ShuttingDown)
            },
            final(self).phase == RegistryState::ShuttingDown,
            final(self).next_id == old(self).next_id,
            final(self).running == old(self).running,
            final(self).cache == old(self).cache,
            final(self).cache_epoch == old(self).cache_epoch,
    {
        if self.phase == RegistryState::ShuttingDown {
            return ShutdownStart::InProgress;
        }
        self.phase = RegistryState::ShuttingDown;
        let processes = self.running.clone();
        assert(processes@ =~= self.running@);
        ShutdownStart::Started { processes, event: RegistryEvent::StateChanged(RegistryState::ShuttingDown) }
    }

    /// A shutdown completed: the registry ends stopped. Returns the event
    /// to announce.
    pub fn finish_shutdown(&mut self) -> (r: RegistryEvent)
        ensures
            final(self).phase == RegistryState::Stopped,
            r == RegistryEvent::StateChanged(RegistryState::Stopped),
            final(self).next_id == old(self).next_id,
            final(self).running == old(self).running,
            final(self).cache == old(self).cache,
            final(self).cache_epoch == old(self).cache_epoch,
    {
        self.phase = RegistryState::Stopped;
        RegistryEvent::StateChanged(RegistryState::Stopped)
    }

    /// What an OS signal does: during a shutdown it force kills every
    /// process (returns true); otherwise it begins a shutdown (false).
    pub fn signal_forces_kill(&self) -> (r: bool)
        ensures
            r == (self.phase == RegistryState::ShuttingDown),
    {
        self.phase == RegistryState::ShuttingDown
    }
}


/// What a started shutdown does with its processes.
#[derive(Debug)]
pub struct ShutdownRound {
    /// The processes to signal, with [`ShutdownRound::signal`].
    pub processes: Vec<ProcessId>,
    /// The signal they get first.
    pub signal: SignalType,
}

/// The first round of a shutdown: a joined shutdown signals nothing; a
/// started one signals every process that was running when it began with
/// the requested signal (an interrupt becomes a terminate on Windows).
pub fn first_round(start: &ShutdownStart, signal: SignalType, windows: bool) -> (r: Option<ShutdownRound>)
    ensures
        start is InProgress ==> r is None,
        start matches ShutdownStart::Started { processes, .. } ==> (r matches Some(round) && round.processes@
            == processes@ && round.signal == (if windows && signal == SignalType::Interrupt {
            SignalType::Terminate
        } else {
            signal
        })),
{
    match start {
        ShutdownStart::InProgress => None,
        ShutdownStart::Started { processes, .. } => {
            let targets = processes.clone();
            assert(targets@ =~= processes@);
            Some(ShutdownRound { processes: targets, signal: initial_shutdown_signal(signal, windows) })
        },
    }
}

/// The round after the grace period: nothing when the registry became
/// idle within it, else every process of the first round is killed.
pub fn grace_round(first: &ShutdownRound, idle_within_grace: bool) -> (r: Option<ShutdownRound>)
    ensures
        idle_within_grace ==> r is None,
        !idle_within_grace ==> (r matches Some(round) && round.processes@ == first.processes@ && round.signal
            == SignalType::Kill),
{
    if idle_within_grace {
        None
    } else {
        let targets = first.processes.clone();
        assert(targets@ =~= first.processes@);
        Some(ShutdownRound { processes: targets, signal: SignalType::Kill })
    }
}

/// How a registry shutdown went, step by step.
#[derive(Debug)]
pub struct ShutdownRun {
    /// A shutdown was already in progress, and this one joined it.
    pub joined: bool,
    /// The events announced, in order.
    pub events: Vec<RegistryEvent>,
    /// The signalling rounds, in order.
    pub rounds: Vec<ShutdownRound>,
    /// The one result published, unless the shutdown was joined.
    pub result: Option<Result<(), IoError>>,
}

/// Run a whole registry shutdown requested with `signal`, given what its
/// outside steps gave: whether signalling the first round succeeded,
/// whether the registry became idle within the grace period, whether the
/// kill round succeeded, and how the processes finished. A shutdown in
/// progress is joined and nothing starts. Otherwise the registry moves to
/// shutting down, signals every process running at the call, kills them
/// all when it is not idle within the grace period, publishes one result
/// (the kill's failure, else the first failure of signalling or of the
/// processes) and ends stopped, announcing both phase changes.
pub fn run_registry_shutdown(
    state: &mut State,
    signal: SignalType,
    windows: bool,
    signalled: Result<(), IoError>,
    idle_within_grace: bool,
    killed: Result<(), IoError>,
    finished: &Vec<Option<IoError>>,
) -> (r: ShutdownRun)
    ensures
        old(state).phase == RegistryState::ShuttingDown ==> r.joined && r.events@.len() == 0 && r.rounds@.len() == 0
            && r.result is None && *final(state) == *old(state),
        old(state).phase != RegistryState::ShuttingDown ==> {
            &&& !r.joined
            &&& r.events@.len() == 2
            &&& r.events@[0] == RegistryEvent::StateChanged(RegistryState::ShuttingDown)
            &&& r.events@[1] == RegistryEvent::StateChanged(RegistryState::Stopped)
            &&& r.rounds@.len() == (if idle_within_grace { 1int } else { 2int })
            &&& r.rounds@[0].processes@ == old(state).running@
            &&& r.rounds@[0].signal == (if windows && signal == SignalType::Interrupt {
                SignalType::Terminate
            } else {
                signal
            })
            &&& !idle_within_grace ==> r.rounds@[1].processes@ == old(state).running@ && r.rounds@[1].signal
                == SignalType::Kill
            &&& r matches ShutdownRun { result: Some(res), .. }
            &&& !idle_within_grace && killed is Err ==> res == killed
            &&& !(!idle_within_grace && killed is Err) ==> (signalled is Err ==> res == signalled)
                && (signalled is Ok ==> (res is Ok <==> forall|i: int|
                0 <= i < finished@.len() ==> finished@[i] is None))
            &&& final(state).phase == RegistryState::Stopped
            &&& final(state).running == old(state).running
            &&& final(state).next_id == old(state).next_id
            &&& final(state).cache == old(state).cache
            &&& final(state).cache_epoch == old(state).cache_epoch
        },
{
    let start = state.begin_shutdown();
    let first = match first_round(&start, signal, windows) {
        None => {
            return ShutdownRun { joined: true, events: Vec::new(), rounds: Vec::new(), result: None };
        },
        Some(round) => round,
    };
    let mut events: Vec<RegistryEvent> = Vec::new();
    match start {
        ShutdownStart::Started { event, .. } => events.push(event),
        ShutdownStart::InProgress => {},
    }
    let second = grace_round(&first, idle_within_grace);
    let mut rounds: Vec<ShutdownRound> = Vec::new();
    rounds.push(first);
    let result = match second {
        Some(kill) => {
            rounds.push(kill);
            match killed {
                Err(error) => Err(error),
                Ok(()) => shutdown_result(signalled, finished),
            }
        },
        None => shutdown_result(signalled, finished),
    };
    events.push(state.finish_shutdown());
    ShutdownRun { joined: false, events, rounds, result: Some(result) }
}

/// A run that started before a cache clear does not repopulate the
/// cache: its epoch is never the one after the clear.
pub proof fn law_stale_epoch_rejected(epoch: u64, output: Output, options: RegistryOptions)
    ensures
        !cache_accepts(epoch, next_epoch(epoch), output, options),
{
}

/// Only successful runs are cached.
pub proof fn law_only_success_cached(epoch: u64, current: u64, output: Output, options: RegistryOptions)
    requires
        cache_accepts(epoch, current, output, options),
    ensures
        output.exit matches crate::signal::ChildExit::Completed(status) && status.code == Some(0i32),
{
}

} // verus!
