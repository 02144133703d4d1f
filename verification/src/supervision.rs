//! The decisions of supervising a registry process: the per-stream output
//! bound, and what a run comes to from its I/O and its exit, whichever
//! finished first.

use crate::error::{IoError, IoErrorKind};
use crate::output::Output;
use crate::signal::ChildExit;
use vstd::prelude::*;

verus! {

/// Append a chunk read from an output stream, unless it would take the
/// stream past `limit` bytes, which fails the capture.
pub fn append_within_limit(bytes: &mut Vec<u8>, chunk: &[u8], limit: usize) -> (r: Result<(), IoError>)
    ensures
        r is Ok <==> chunk@.len() <= (if limit > old(bytes)@.len() {
            limit - old(bytes)@.len()
        } else {
            0
        }),
        r is Ok ==> final(bytes)@ == old(bytes)@ + chunk@,
        r matches Err(e) ==> e.message@ == "process output exceeded configured byte limit"@ && final(bytes)@ == old(
            bytes,
        )@,
{
    let room = if limit > bytes.len() {
        limit - bytes.len()
    } else {
        0
    };
    if chunk.len() > room {
        return Err(IoError::other("process output exceeded configured byte limit"));
    }
    let ghost start = bytes@;
    let mut i: usize = 0;
    while i < chunk.len()
        invariant
            i <= chunk@.len(),
            bytes@ == start + chunk@.take(i as int),
        decreases chunk@.len() - i,
    {
        bytes.push(chunk[i]);
        assert(chunk@.take(i + 1) =~= chunk@.take(i as int).push(chunk@[i as int]));
        i = i + 1;
    }
    assert(chunk@.take(chunk@.len() as int) =~= chunk@);
    Ok(())
}

/// The bytes of the chunks, one after the other.
pub open spec fn joined_chunks(chunks: Seq<Vec<u8>>) -> Seq<u8>
    decreases chunks.len(),
{
    if chunks.len() == 0 {
        Seq::empty()
    } else {
        joined_chunks(chunks.drop_last()) + chunks.last()@
    }
}

/// Collect the chunks read from an output stream, in order, failing as
/// soon as they would take the stream past `limit` bytes: the stream
/// succeeds exactly when all it read fits the limit.
pub fn read_stream(chunks: &Vec<Vec<u8>>, limit: usize) -> (r: Result<Vec<u8>, IoError>)
    ensures
        r is Ok <==> joined_chunks(chunks@).len() <= limit,
        r matches Ok(b) ==> b@ == joined_chunks(chunks@) && b@.len() <= limit,
        r matches Err(e) ==> e.message@ == "process output exceeded configured byte limit"@,
{
    let mut bytes: Vec<u8> = Vec::new();
    let mut i: usize = 0;
    while i < chunks.len()
        invariant
            i <= chunks@.len(),
            bytes@ == joined_chunks(chunks@.take(i as int)),
            bytes@.len() <= limit,
        decreases chunks@.len() - i,
    {
        proof {
            assert(chunks@.take(i + 1).drop_last() =~= chunks@.take(i as int));
        }
        match append_within_limit(&mut bytes, chunks[i].as_slice(), limit) {
            Ok(()) => {},
            Err(e) => {
                proof {
                    lemma_joined_chunks_grow(chunks@, i + 1);
                }
                return Err(e);
            },
        }
        i = i + 1;
    }
    assert(chunks@.take(chunks@.len() as int) =~= chunks@);
    Ok(bytes)
}

/// The bytes of a prefix of chunks are no more than those of all of them.
proof fn lemma_joined_chunks_grow(chunks: Seq<Vec<u8>>, k: int)
    requires
        0 <= k <= chunks.len(),
    ensures
        joined_chunks(chunks.take(k)).len() <= joined_chunks(chunks).len(),
    decreases chunks.len() - k,
{
    if k < chunks.len() {
        lemma_joined_chunks_grow(chunks, k + 1);
        assert(chunks.take(k + 1).drop_last() =~= chunks.take(k));
    } else {
        assert(chunks.take(k) =~= chunks);
    }
}

/// The output a run's I/O gave is within the per-stream limit.
pub open spec fn io_within(io: Option<Result<(Vec<u8>, Vec<u8>), IoError>>, limit: usize) -> bool {
    io matches Some(Ok((out, err))) ==> out@.len() <= limit && err@.len() <= limit
}

/// How a supervised run ended: by its I/O or by its exit first, with
/// what the other gave afterwards (for I/O after the exit, `None` when
/// its pipes did not close within the drain timeout).
#[derive(Debug)]
pub enum RunEnd {
    /// Stdin, stdout and stderr finished first; the exit followed, if the
    /// I/O succeeded.
    IoFirst { io: Result<(Vec<u8>, Vec<u8>), IoError>, exit: Option<Result<ChildExit, IoError>> },
    /// The child exited (or waiting failed) first; the I/O followed within
    /// the drain timeout, or not.
    ExitFirst { exit: Result<ChildExit, IoError>, io: Option<Result<(Vec<u8>, Vec<u8>), IoError>> },
}

/// What a supervised run comes to. An I/O failure, a failed wait, or
/// pipes that stay open after the exit fail it; otherwise its output is
/// the exit with what was read, which [`read_stream`] kept within the
/// per-stream `limit` (`max_output_bytes`).
pub fn run_result(end: RunEnd, limit: usize) -> (r: Result<Output, IoError>)
    requires
        end matches RunEnd::IoFirst { io, exit } ==> (io is Ok ==> exit is Some) && io_within(Some(io), limit),
        end matches RunEnd::ExitFirst { exit, io } ==> (exit is Err ==> io is None) && io_within(io, limit),
    ensures
        r matches Ok(o) ==> o.stdout@.len() <= limit && o.stderr@.len() <= limit,
        match end {
            RunEnd::IoFirst { io, exit } => match io {
                Err(e) => r == Err::<Output, IoError>(e),
                Ok((out, err)) => match exit->0 {
                    Err(e) => r == Err::<Output, IoError>(e),
                    Ok(x) => r matches Ok(o) && o.exit == x && o.stdout@ == out@ && o.stderr@ == err@,
                },
            },
            RunEnd::ExitFirst { exit, io } => match exit {
                Err(e) => r == Err::<Output, IoError>(e),
                Ok(x) => match io {
                    None => r matches Err(e) && e.kind == IoErrorKind::TimedOut && e.message@
                        == "process output pipes did not close after exit"@,
                    Some(Err(e)) => r == Err::<Output, IoError>(e),
                    Some(Ok((out, err))) => r matches Ok(o) && o.exit == x && o.stdout@ == out@ && o.stderr@
                        == err@,
                },
            },
        },
{
    match end {
        RunEnd::IoFirst { io, exit } => match io {
            Err(e) => Err(e),
            Ok((stdout, stderr)) => match exit {
                Some(Ok(exit)) => Ok(Output { exit, stdout, stderr }),
                Some(Err(e)) => Err(e),
                None => Err(IoError::other("process supervisor stopped without a completion result")),
            },
        },
        RunEnd::ExitFirst { exit, io } => match exit {
            Err(e) => Err(e),
            Ok(exit) => match io {
                None => Err(
                    IoError {
                        kind: IoErrorKind::TimedOut,
                        raw_os_error: None,
                        message: "process output pipes did not close after exit".to_owned(),
                    },
                ),
                Some(Err(e)) => Err(e),
                Some(Ok((stdout, stderr))) => Ok(Output { exit, stdout, stderr }),
            },
        },
    }
}

/// Whether a finished run must still be cleaned up: on any failure the
/// process tree is killed, its output stopped and the child reaped.
pub fn needs_cleanup(result: &Result<Output, IoError>) -> (r: bool)
    ensures
        r == result is Err,
{
    result.is_err()
}

} // verus!
