//! Registry configuration, process identities, and lifecycle events.

use crate::error::IoError;
use crate::signal::{ChildExit, SignalType};
use vstd::prelude::*;

verus! {

/// Resource bounds and shutdown policy for one registry. Durations are in
/// milliseconds.
#[derive(Clone, Debug)]
pub struct RegistryOptions {
    /// Time allowed for graceful termination before sending `Kill`.
    pub shutdown_grace: u64,
    /// Maximum wait for inherited pipes after the direct child exits.
    pub output_drain_timeout: u64,
    /// Maximum captured bytes per output stream. Exceeding it kills the process.
    pub max_output_bytes: usize,
    /// Maximum number of cached successful outputs. Zero disables caching.
    pub cache_capacity: usize,
    /// Maximum total stdout and stderr bytes retained by the cache.
    pub cache_max_bytes: usize,
    /// Time until a cache entry expires. Files and network state are not tracked.
    pub cache_ttl: u64,
}

impl Default for RegistryOptions {
    fn default() -> (r: RegistryOptions)
        ensures
            r.shutdown_grace == 5000,
            r.output_drain_timeout == 1000,
            r.max_output_bytes == 16 * 1024 * 1024,
            r.cache_capacity == 128,
            r.cache_max_bytes == 64 * 1024 * 1024,
            r.cache_ttl == 300000,
    {
        RegistryOptions {
            shutdown_grace: 5000,
            output_drain_timeout: 1000,
            max_output_bytes: 16 * 1024 * 1024,
            cache_capacity: 128,
            cache_max_bytes: 64 * 1024 * 1024,
            cache_ttl: 300000,
        }
    }
}

/// Admission and shutdown state. A stopped registry still supervises children.
#[derive(Clone, Copy, Debug, PartialEq, Eq, Structural)]
pub enum RegistryState {
    /// New processes can be spawned.
    Running,
    /// New processes are rejected; existing processes continue.
    Stopped,
    /// New processes are rejected while children are being terminated.
    ShuttingDown,
}

/// Identity within a registry, independent of OS PID reuse.
#[derive(Clone, Copy, Debug, PartialEq, Eq, Hash, Structural)]
pub struct ProcessId(pub(crate) u64);

impl ProcessId {
    /// The number behind the identity; identities are handed out in
    /// increasing order.
    pub closed spec fn number(self) -> u64 {
        self.0
    }

    /// The identity with the given number.
    pub(crate) fn from_number(n: u64) -> (r: ProcessId)
        ensures
            r.number() == n,
    {
        ProcessId(n)
    }
}

/// Best-effort notifications about a registry.
#[derive(Clone, Debug)]
pub enum RegistryEvent {
    /// Admission state changed.
    StateChanged(RegistryState),
    /// A process was started.
    Spawned { id: ProcessId, pid: u32 },
    /// A process and its I/O completed successfully (possibly with nonzero exit).
    Completed { id: ProcessId, exit: ChildExit },
    /// Supervision, capture, or cleanup failed.
    Failed { id: ProcessId, error: IoError },
    /// A requested signal was delivered.
    Signalled { id: ProcessId, signal: SignalType },
    /// An OS signal was received by the opt-in listener.
    SignalReceived(SignalType),
}

} // verus!
