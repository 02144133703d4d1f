//! Resuming a child that was created suspended, as a job's startup does
//! on Windows: which thread of the system's thread snapshot to resume,
//! and when its identity no longer holds. The snapshot and the thread
//! calls are the platform's.

use crate::error::IoError;
use vstd::prelude::*;

verus! {

/// The thread to resume for `pid`: the first entry of the snapshot, as
/// `(thread id, owner process id)` pairs, that `pid` owns. A suspended
/// child has exactly one thread.
pub fn suspended_thread(entries: &Vec<(u32, u32)>, pid: u32) -> (r: Result<u32, IoError>)
    ensures
        r matches Ok(t) ==> exists|i: int|
            0 <= i < entries@.len() && entries@[i] == (t, pid) && forall|j: int| 0 <= j < i ==> entries@[j].1 != pid,
        r is Err <==> forall|i: int| 0 <= i < entries@.len() ==> entries@[i].1 != pid,
        r matches Err(e) ==> e.message@ == "suspended child thread was not found"@,
{
    let mut i: usize = 0;
    while i < entries.len()
        invariant
            i <= entries@.len(),
            forall|j: int| 0 <= j < i ==> entries@[j].1 != pid,
        decreases entries@.len() - i,
    {
        if entries[i].1 == pid {
            assert(entries@[i as int] == (entries@[i as int].0, pid));
            return Ok(entries[i].0);
        }
        i = i + 1;
    }
    Err(IoError::other("suspended child thread was not found"))
}

/// Whether the opened thread still belongs to `pid`: a thread id reused
/// after an outside kill must not be resumed.
pub fn thread_still_owned(owner: u32, pid: u32) -> (r: Result<(), IoError>)
    ensures
        r is Ok <==> owner == pid,
        r matches Err(e) ==> e.message@ == "suspended child thread identity changed"@,
{
    if owner == pid {
        Ok(())
    } else {
        Err(IoError::other("suspended child thread identity changed"))
    }
}

} // verus!
