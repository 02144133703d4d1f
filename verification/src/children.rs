//! The children a registry tracks, by pid: whether each still runs, and
//! the decisions made from that table (which to reap, which to signal on
//! shutdown, when a wait is over). Process handles live beside the table,
//! under the same pids.

use crate::signal::{ChildExit, SignalType};
use vstd::prelude::*;

verus! {

/// Behavioral settings for a registry of tracked children. Durations are
/// in milliseconds.
#[derive(Clone, Debug)]
pub struct ProcessRegistryOptions {
    /// How long running children get to exit after a termination signal
    /// before they are force killed. Zero waits indefinitely. A second
    /// signal during the grace period force kills immediately.
    pub shutdown_threshold: u64,
    /// Also deliver signals to the descendants of each child.
    pub signal_descendants: bool,
    /// Listen for OS termination signals and shut running children down
    /// when one arrives.
    pub handle_signals: bool,
    /// Kill a child that is still running when its original handle is
    /// dropped without being released.
    pub kill_on_drop: bool,
    /// How often to poll tracked children for exit.
    pub reap_interval: u64,
    /// Maximum number of entries in the output cache.
    pub cache_capacity: usize,
    /// Capacity of the event and signal broadcast channels.
    pub channel_capacity: usize,
}

impl Default for ProcessRegistryOptions {
    fn default() -> (r: ProcessRegistryOptions)
        ensures
            r.shutdown_threshold == 2000,
            r.signal_descendants,
            r.handle_signals,
            r.kill_on_drop,
            r.reap_interval == 500,
            r.cache_capacity == 256,
            r.channel_capacity == 64,
    {
        ProcessRegistryOptions {
            shutdown_threshold: 2000,
            signal_descendants: true,
            handle_signals: true,
            kill_on_drop: true,
            reap_interval: 500,
            cache_capacity: 256,
            channel_capacity: 64,
        }
    }
}

/// Where a tracked child is in its lifetime.
#[derive(Clone, Debug, PartialEq, Eq)]
pub enum ChildState {
    /// The process has not exited yet.
    Running,
    /// The process has exited and been reaped. It stays tracked until
    /// released, so shutdown can still stop readers draining its output.
    Exited(ChildExit),
}

/// Something that happened in a registry of tracked children.
#[derive(Clone, Debug)]
pub enum ProcessEvent {
    /// The background tasks were started.
    Started,
    /// The background tasks were stopped.
    Stopped,
    /// A child was tracked.
    Tracking { pid: u32 },
    /// A tracked child exited.
    Exited { pid: u32, exit: ChildExit },
    /// A child is no longer tracked.
    Released { pid: u32 },
    /// A termination signal was received, from the OS or programmatically.
    Signal(SignalType),
    /// Running children are being asked to shut down.
    ShutdownStarted { signal: SignalType, pids: Vec<u32> },
    /// The grace period ran out or a second signal arrived, and the
    /// children are being force killed.
    ShutdownForced { pids: Vec<u32> },
    /// Every child of the shutdown has exited.
    ShutdownFinished,
}

/// A child known to the registry.
#[derive(Clone, Debug)]
pub struct TrackedChild {
    /// The process id.
    pub pid: u32,
    /// A display string of the command line, when known.
    pub command: Option<String>,
    /// Whether the process is still running.
    pub state: ChildState,
    /// When the child was tracked, in milliseconds on the registry's clock.
    pub tracked_at: u64,
}

/// What the table records of a child.
pub struct ChildRecord {
    pub command: Option<Seq<char>>,
    pub state: ChildState,
    pub tracked_at: u64,
}

/// The record of a tracked child.
pub open spec fn record_of(c: TrackedChild) -> ChildRecord {
    ChildRecord {
        command: match c.command {
            Some(s) => Some(s@),
            None => None,
        },
        state: c.state,
        tracked_at: c.tracked_at,
    }
}

impl TrackedChild {
    /// Return the child's process id.
    pub fn pid(&self) -> (r: u32)
        ensures
            r == self.pid,
    {
        self.pid
    }

    /// Return true if the process has not exited yet.
    pub fn is_running(&self) -> (r: bool)
        ensures
            r == (self.state is Running),
    {
        match self.state {
            ChildState::Running => true,
            ChildState::Exited(_) => false,
        }
    }

    /// A copy of this record.
    pub fn duplicate(&self) -> (r: TrackedChild)
        ensures
            record_of(r) == record_of(*self),
            r.pid == self.pid,
    {
        TrackedChild {
            pid: self.pid,
            command: match &self.command {
                Some(c) => Some(c.clone()),
                None => None,
            },
            state: match &self.state {
                ChildState::Running => ChildState::Running,
                ChildState::Exited(exit) => ChildState::Exited(exit.duplicate()),
            },
            tracked_at: self.tracked_at,
        }
    }
}

/// True when some child in `s` has the pid.
pub open spec fn has_pid(s: Seq<TrackedChild>, pid: u32) -> bool {
    exists|i: int| 0 <= i < s.len() && (#[trigger] s[i]).pid == pid
}

/// The position of the child with the pid.
pub open spec fn pid_index(s: Seq<TrackedChild>, pid: u32) -> int {
    choose|i: int| 0 <= i < s.len() && (#[trigger] s[i]).pid == pid
}

/// The children of `s` by pid.
pub open spec fn table_map(s: Seq<TrackedChild>) -> Map<u32, ChildRecord> {
    Map::new(|pid: u32| has_pid(s, pid), |pid: u32| record_of(s[pid_index(s, pid)]))
}

/// No pid occurs twice.
pub open spec fn pids_distinct(s: Seq<TrackedChild>) -> bool {
    forall|i: int, j: int| 0 <= i < j < s.len() ==> (#[trigger] s[i]).pid != (#[trigger] s[j]).pid
}

/// Some child among the first `n` of `s` still runs with the pid.
pub open spec fn running_among(s: Seq<TrackedChild>, n: int, pid: u32) -> bool {
    exists|j: int| 0 <= j < n && (#[trigger] s[j]).pid == pid && s[j].state is Running
}

/// The pids of the children that still run.
pub open spec fn running_set(m: Map<u32, ChildRecord>) -> Set<u32> {
    m.dom().filter(|pid: u32| m[pid].state is Running)
}

proof fn lemma_index_of(s: Seq<TrackedChild>, i: int)
    requires
        pids_distinct(s),
        0 <= i < s.len(),
    ensures
        has_pid(s, s[i].pid),
        pid_index(s, s[i].pid) == i,
{
    let j = pid_index(s, s[i].pid);
    if j != i {
        if j < i {
            assert(s[j].pid != s[i].pid);
        } else {
            assert(s[i].pid != s[j].pid);
        }
    }
}

/// The children a registry tracks. A pid occurs once.
#[derive(Debug)]
pub struct ChildTable {
    entries: Vec<TrackedChild>,
}

impl View for ChildTable {
    type V = Map<u32, ChildRecord>;

    closed spec fn view(&self) -> Map<u32, ChildRecord> {
        table_map(self.entries@)
    }
}

impl ChildTable {
    #[verifier::type_invariant]
    closed spec fn wf(&self) -> bool {
        pids_distinct(self.entries@)
    }

    /// An empty table.
    pub fn new() -> (r: ChildTable)
        ensures
            r@ == Map::<u32, ChildRecord>::empty(),
    {
        let r = ChildTable { entries: Vec::new() };
        assert(r@ =~= Map::<u32, ChildRecord>::empty());
        r
    }

    fn position(&self, pid: u32) -> (r: Option<usize>)
        ensures
            match r {
                Some(i) => i < self.entries@.len() && self.entries@[i as int].pid == pid,
                None => !has_pid(self.entries@, pid),
            },
    {
        let mut i: usize = 0;
        while i < self.entries.len()
            invariant
                i <= self.entries@.len(),
                forall|k: int| 0 <= k < i ==> (#[trigger] self.entries@[k]).pid != pid,
            decreases self.entries@.len() - i,
        {
            if self.entries[i].pid == pid {
                return Some(i);
            }
            i = i + 1;
        }
        None
    }
}

proof fn lemma_table_set(before: Seq<TrackedChild>, i: int, child: TrackedChild)
    requires
        pids_distinct(before),
        0 <= i < before.len(),
        child.pid == before[i].pid,
    ensures
        pids_distinct(before.update(i, child)),
        table_map(before.update(i, child)) == table_map(before).insert(child.pid, record_of(child)),
{
    let after = before.update(i, child);
    let pid = child.pid;
    assert(pids_distinct(after)) by {
        assert forall|a: int, b: int| 0 <= a < b < after.len() implies (#[trigger] after[a]).pid != (
        #[trigger] after[b]).pid by {
            assert(before[a].pid != before[b].pid);
        }
    }
    assert(table_map(after) =~= table_map(before).insert(pid, record_of(child))) by {
        assert forall|p: u32| #[trigger] table_map(after).dom().contains(p) <==> table_map(before).insert(
            pid,
            record_of(child),
        ).dom().contains(p) by {
            if has_pid(after, p) {
                let k = choose|k: int| 0 <= k < after.len() && (#[trigger] after[k]).pid == p;
                if k != i {
                    assert(before[k].pid == p);
                }
            }
            if has_pid(before, p) {
                let k = choose|k: int| 0 <= k < before.len() && (#[trigger] before[k]).pid == p;
                if k != i {
                    assert(after[k].pid == p);
                } else {
                    assert(after[i].pid == p);
                }
            }
            if p == pid {
                assert(after[i].pid == p);
            }
        }
        assert forall|p: u32| #[trigger] table_map(after).dom().contains(p) implies table_map(after)[p]
            == table_map(before).insert(pid, record_of(child))[p] by {
            let k = choose|k: int| 0 <= k < after.len() && (#[trigger] after[k]).pid == p;
            lemma_index_of(after, k);
            if k != i {
                assert(before[k] == after[k]);
                lemma_index_of(before, k);
            }
        }
    }
}

proof fn lemma_table_push(before: Seq<TrackedChild>, child: TrackedChild)
    requires
        pids_distinct(before),
        !has_pid(before, child.pid),
    ensures
        pids_distinct(before.push(child)),
        table_map(before.push(child)) == table_map(before).insert(child.pid, record_of(child)),
{
    let after = before.push(child);
    let pid = child.pid;
    assert(pids_distinct(after)) by {
        assert forall|a: int, b: int| 0 <= a < b < after.len() implies (#[trigger] after[a]).pid != (
        #[trigger] after[b]).pid by {
            if b < before.len() {
                assert(before[a].pid != before[b].pid);
            } else {
                assert(after[a] == before[a]);
            }
        }
    }
    assert(table_map(after) =~= table_map(before).insert(pid, record_of(child))) by {
        assert forall|p: u32| #[trigger] table_map(after).dom().contains(p) <==> table_map(before).insert(
            pid,
            record_of(child),
        ).dom().contains(p) by {
            if has_pid(after, p) {
                let k = choose|k: int| 0 <= k < after.len() && (#[trigger] after[k]).pid == p;
                if k < before.len() {
                    assert(before[k] == after[k]);
                }
            }
            if has_pid(before, p) {
                let k = choose|k: int| 0 <= k < before.len() && (#[trigger] before[k]).pid == p;
                assert(after[k] == before[k]);
            }
            if p == pid {
                assert(after[before.len() as int].pid == p);
            }
        }
        assert forall|p: u32| #[trigger] table_map(after).dom().contains(p) implies table_map(after)[p]
            == table_map(before).insert(pid, record_of(child))[p] by {
            let k = choose|k: int| 0 <= k < after.len() && (#[trigger] after[k]).pid == p;
            lemma_index_of(after, k);
            if k < before.len() {
                assert(before[k] == after[k]);
                lemma_index_of(before, k);
            }
        }
    }
}

proof fn lemma_table_remove(before: Seq<TrackedChild>, i: int)
    requires
        pids_distinct(before),
        0 <= i < before.len(),
    ensures
        pids_distinct(before.remove(i)),
        table_map(before.remove(i)) == table_map(before).remove(before[i].pid),
{
    let after = before.remove(i);
    let pid = before[i].pid;
    assert(pids_distinct(after)) by {
        assert forall|a: int, b: int| 0 <= a < b < after.len() implies (#[trigger] after[a]).pid != (
        #[trigger] after[b]).pid by {
            let ia = if a < i { a } else { a + 1 };
            let ib = if b < i { b } else { b + 1 };
            assert(after[a] == before[ia] && after[b] == before[ib]);
            assert(before[ia].pid != before[ib].pid);
        }
    }
    assert(table_map(after) =~= table_map(before).remove(pid)) by {
        assert forall|p: u32| #[trigger] table_map(after).dom().contains(p) <==> table_map(before).remove(
            pid,
        ).dom().contains(p) by {
            if has_pid(after, p) {
                let k = choose|k: int| 0 <= k < after.len() && (#[trigger] after[k]).pid == p;
                let ik = if k < i { k } else { k + 1 };
                assert(after[k] == before[ik]);
                assert(before[ik].pid != before[i].pid);
            }
            if has_pid(before, p) && p != pid {
                let k = choose|k: int| 0 <= k < before.len() && (#[trigger] before[k]).pid == p;
                if k < i {
                    assert(after[k] == before[k]);
                } else {
                    assert(after[k - 1] == before[k]);
                }
            }
        }
        assert forall|p: u32| #[trigger] table_map(after).dom().contains(p) implies table_map(after)[p]
            == table_map(before).remove(pid)[p] by {
            let k = choose|k: int| 0 <= k < after.len() && (#[trigger] after[k]).pid == p;
            lemma_index_of(after, k);
            let ik = if k < i { k } else { k + 1 };
            assert(after[k] == before[ik]);
            lemma_index_of(before, ik);
        }
    }
}

impl ChildTable {
    /// Track a child as running, replacing an earlier child with its pid.
    /// Returns the event to announce.
    pub fn track(&mut self, pid: u32, command: Option<String>, now: u64) -> (r: ProcessEvent)
        ensures
            final(self)@ == old(self)@.insert(
                pid,
                ChildRecord {
                    command: match command {
                        Some(s) => Some(s@),
                        None => None,
                    },
                    state: ChildState::Running,
                    tracked_at: now,
                },
            ),
            r matches ProcessEvent::Tracking { pid: p } && p == pid,
    {
        proof {
            use_type_invariant(&*self);
        }
        let child = TrackedChild { pid, command, state: ChildState::Running, tracked_at: now };
        let ghost before = self.entries@;
        let found = self.position(pid);
        let mut entries: Vec<TrackedChild> = Vec::new();
        std::mem::swap(&mut entries, &mut self.entries);
        match found {
            Some(i) => {
                proof {
                    lemma_table_set(before, i as int, child);
                }
                entries.set(i, child);
            },
            None => {
                proof {
                    lemma_table_push(before, child);
                }
                entries.push(child);
            },
        }
        self.entries = entries;
        ProcessEvent::Tracking { pid }
    }

    /// Stop tracking a child. Returns its entry, if it was tracked.
    pub fn release(&mut self, pid: u32) -> (r: Option<TrackedChild>)
        ensures
            final(self)@ == old(self)@.remove(pid),
            r is Some <==> old(self)@.dom().contains(pid),
            r matches Some(c) ==> c.pid == pid && record_of(c) == old(self)@[pid],
    {
        proof {
            use_type_invariant(&*self);
        }
        let ghost before = self.entries@;
        match self.position(pid) {
            Some(i) => {
                proof {
                    lemma_table_remove(before, i as int);
                    lemma_index_of(before, i as int);
                }
                let mut entries: Vec<TrackedChild> = Vec::new();
                std::mem::swap(&mut entries, &mut self.entries);
                let c = entries.remove(i);
                self.entries = entries;
                Some(c)
            },
            None => {
                assert(table_map(before).remove(pid) =~= table_map(before));
                None
            },
        }
    }

    /// Look up a tracked child by pid, running or exited.
    pub fn get(&self, pid: u32) -> (r: Option<&TrackedChild>)
        ensures
            r is Some <==> self@.dom().contains(pid),
            r matches Some(c) ==> c.pid == pid && record_of(*c) == self@[pid],
    {
        proof {
            use_type_invariant(self);
        }
        match self.position(pid) {
            Some(i) => {
                proof {
                    lemma_index_of(self.entries@, i as int);
                }
                Some(&self.entries[i])
            },
            None => None,
        }
    }

    /// Return true if the child is tracked and still running.
    pub fn is_running(&self, pid: u32) -> (r: bool)
        ensures
            r == (self@.dom().contains(pid) && self@[pid].state is Running),
    {
        match self.get(pid) {
            Some(c) => c.is_running(),
            None => false,
        }
    }

    /// Record that a tracked child exited. Returns the event to announce,
    /// or `None` if the child was released meanwhile.
    pub fn mark_exited(&mut self, pid: u32, exit: ChildExit) -> (r: Option<ProcessEvent>)
        ensures
            old(self)@.dom().contains(pid) ==> final(self)@ == old(self)@.insert(
                pid,
                ChildRecord { state: ChildState::Exited(exit), ..old(self)@[pid] },
            ),
            !old(self)@.dom().contains(pid) ==> final(self)@ == old(self)@,
            r is Some <==> old(self)@.dom().contains(pid),
            r matches Some(ev) ==> ev matches ProcessEvent::Exited { pid: p, exit: e } && p == pid && e == exit,
    {
        proof {
            use_type_invariant(&*self);
        }
        let ghost before = self.entries@;
        match self.position(pid) {
            Some(i) => {
                proof {
                    lemma_index_of(before, i as int);
                }
                let mut entries: Vec<TrackedChild> = Vec::new();
                std::mem::swap(&mut entries, &mut self.entries);
                let mut child = entries[i].duplicate();
                child.state = ChildState::Exited(exit.duplicate());
                proof {
                    lemma_table_set(before, i as int, child);
                    assert(record_of(child) == ChildRecord { state: ChildState::Exited(exit), ..table_map(before)[pid] });
                }
                entries.set(i, child);
                self.entries = entries;
                Some(ProcessEvent::Exited { pid, exit })
            },
            None => None,
        }
    }

    /// The pids of every tracked child, running or exited.
    pub fn list(&self) -> (r: Vec<u32>)
        ensures
            r@.no_duplicates(),
            r@.to_set() == self@.dom(),
    {
        proof {
            use_type_invariant(self);
        }
        let mut r: Vec<u32> = Vec::new();
        let mut i: usize = 0;
        while i < self.entries.len()
            invariant
                i <= self.entries@.len(),
                pids_distinct(self.entries@),
                r@.len() == i,
                forall|k: int| 0 <= k < i ==> r@[k] == (#[trigger] self.entries@[k]).pid,
            decreases self.entries@.len() - i,
        {
            r.push(self.entries[i].pid);
            i = i + 1;
        }
        assert(r@.no_duplicates()) by {
            assert forall|a: int, b: int| 0 <= a < r@.len() && 0 <= b < r@.len() && a != b implies r@[a] != r@[b] by {
                if a < b {
                    assert(self.entries@[a].pid != self.entries@[b].pid);
                } else {
                    assert(self.entries@[b].pid != self.entries@[a].pid);
                }
            }
        }
        assert(r@.to_set() =~= self@.dom()) by {
            assert forall|p: u32| r@.to_set().contains(p) <==> self@.dom().contains(p) by {
                if r@.to_set().contains(p) {
                    let k = choose|k: int| 0 <= k < r@.len() && r@[k] == p;
                    assert(self.entries@[k].pid == p);
                }
                if self@.dom().contains(p) {
                    let k = choose|k: int| 0 <= k < self.entries@.len() && (#[trigger] self.entries@[k]).pid == p;
                    assert(r@[k] == p);
                }
            }
        }
        r
    }

    /// The pids of the children that still run.
    pub fn list_running(&self) -> (r: Vec<u32>)
        ensures
            r@.no_duplicates(),
            r@.to_set() == running_set(self@),
    {
        proof {
            use_type_invariant(self);
        }
        let mut r: Vec<u32> = Vec::new();
        let mut i: usize = 0;
        while i < self.entries.len()
            invariant
                i <= self.entries@.len(),
                pids_distinct(self.entries@),
                forall|k: int| 0 <= k < r@.len() ==> running_among(self.entries@, i as int, #[trigger] r@[k]),
                forall|j: int| 0 <= j < i && (#[trigger] self.entries@[j]).state is Running ==> r@.contains(
                    self.entries@[j].pid,
                ),
                r@.no_duplicates(),
            decreases self.entries@.len() - i,
        {
            let ghost old_r = r@;
            if self.entries[i].is_running() {
                proof {
                    assert forall|k: int| 0 <= k < r@.len() implies r@[k] != self.entries@[i as int].pid by {
                        assert(running_among(self.entries@, i as int, r@[k]));
                        let j = choose|j: int| 0 <= j < i && (#[trigger] self.entries@[j]).pid == r@[k] && self.entries@[j].state is Running;
                        assert(self.entries@[j].pid != self.entries@[i as int].pid);
                    }
                }
                r.push(self.entries[i].pid);
            }
            proof {
                assert forall|k: int| 0 <= k < r@.len() implies running_among(self.entries@, i + 1, #[trigger] r@[k]) by {
                    if k < old_r.len() {
                        assert(r@[k] == old_r[k]);
                        assert(running_among(self.entries@, i as int, old_r[k]));
                        let j = choose|j: int| 0 <= j < i && (#[trigger] self.entries@[j]).pid == old_r[k] && self.entries@[j].state is Running;
                        assert(self.entries@[j].pid == r@[k]);
                    } else {
                        assert(self.entries@[i as int].pid == r@[k]);
                    }
                }
                assert forall|j: int| 0 <= j < i + 1 && (#[trigger] self.entries@[j]).state is Running implies r@.contains(
                    self.entries@[j].pid) by {
                    if j < i {
                        assert(old_r.contains(self.entries@[j].pid));
                        let m = choose|m: int| 0 <= m < old_r.len() && old_r[m] == self.entries@[j].pid;
                        assert(r@[m] == old_r[m]);
                    } else {
                        assert(r@[r@.len() - 1] == self.entries@[j].pid);
                    }
                }
            }
            i = i + 1;
        }
        assert(r@.to_set() =~= running_set(self@)) by {
            assert forall|p: u32| r@.to_set().contains(p) <==> running_set(self@).contains(p) by {
                if r@.to_set().contains(p) {
                    let k = choose|k: int| 0 <= k < r@.len() && r@[k] == p;
                    assert(running_among(self.entries@, self.entries@.len() as int, r@[k]));
                    let j = choose|j: int| 0 <= j < self.entries@.len() && (#[trigger] self.entries@[j]).pid == r@[k] && self.entries@[j].state is Running;
                    lemma_index_of(self.entries@, j);
                }
                if running_set(self@).contains(p) {
                    let j = choose|j: int| 0 <= j < self.entries@.len() && (#[trigger] self.entries@[j]).pid == p;
                    lemma_index_of(self.entries@, j);
                }
            }
        }
        r
    }

    /// The number of children that still run.
    pub fn running_count(&self) -> (r: usize)
        ensures
            r == running_set(self@).len(),
    {
        let pids = self.list_running();
        proof {
            pids@.unique_seq_to_set();
        }
        pids.len()
    }

    /// True when none of `pids` is a tracked child that still runs: a wait
    /// for them is over.
    pub fn all_exited(&self, pids: &Vec<u32>) -> (r: bool)
        ensures
            r == forall|i: int| 0 <= i < pids@.len() ==> !running_set(self@).contains(#[trigger] pids@[i]),
    {
        let mut i: usize = 0;
        while i < pids.len()
            invariant
                i <= pids@.len(),
                forall|k: int| 0 <= k < i ==> !running_set(self@).contains(#[trigger] pids@[k]),
            decreases pids@.len() - i,
        {
            if self.is_running(pids[i]) {
                assert(running_set(self@).contains(pids@[i as int]));
                return false;
            }
            i = i + 1;
        }
        true
    }

    /// Whether a child whose original handle was dropped is killed before
    /// it is released: only a tracked child that still runs, and only when
    /// the registry kills on drop.
    pub fn kill_when_dropped(&self, pid: u32, kill_on_drop: bool) -> (r: bool)
        ensures
            r == (kill_on_drop && running_set(self@).contains(pid)),
    {
        self.is_running(pid) && kill_on_drop
    }

    /// True when no tracked child still runs.
    pub fn none_running(&self) -> (r: bool)
        ensures
            r == (running_set(self@).len() == 0),
    {
        self.running_count() == 0
    }
}

} // verus!
