//! Sharing cached runs: the first caller for a key runs while concurrent
//! callers for the same key wait for its output; a successful run is
//! cached and handed to the waiters, a failed one is not, and the waiters
//! then run themselves. The waiting and running are the caller's.

use crate::command::string_views;
use crate::text::str_eq;
use vstd::prelude::*;

verus! {

/// How a cached run starts.
#[derive(Clone, Copy, Debug, PartialEq, Eq, Structural)]
pub enum CachedStart {
    /// The output is cached: return it.
    Hit,
    /// A run for the key is in flight: wait for its output.
    Join,
    /// Run, owning the key's in-flight entry.
    Run,
}

/// How a cached run starts, given whether the output is cached and the
/// keys whose runs are in flight.
pub open spec fn cached_start(cached: bool, inflight: Seq<Seq<char>>, key: Seq<char>) -> CachedStart {
    if cached {
        CachedStart::Hit
    } else if inflight.contains(key) {
        CachedStart::Join
    } else {
        CachedStart::Run
    }
}

/// The keys in flight after a start: a run owns its key from then on.
pub open spec fn inflight_after_start(cached: bool, inflight: Seq<Seq<char>>, key: Seq<char>) -> Seq<Seq<char>> {
    if cached_start(cached, inflight, key) == CachedStart::Run {
        inflight.push(key)
    } else {
        inflight
    }
}

fn in_flight(inflight: &Vec<String>, key: &str) -> (r: bool)
    ensures
        r == string_views(inflight@).contains(key@),
{
    let mut i: usize = 0;
    while i < inflight.len()
        invariant
            i <= inflight@.len(),
            forall|k: int| 0 <= k < i ==> inflight@[k]@ != key@,
        decreases inflight@.len() - i,
    {
        if str_eq(inflight[i].as_str(), key) {
            assert(string_views(inflight@)[i as int] == key@);
            return true;
        }
        i = i + 1;
    }
    assert forall|k: int| 0 <= k < inflight@.len() implies string_views(inflight@)[k] != key@ by {}
    false
}

/// Start a cached run for `key`: a cached output is returned, a run in
/// flight is joined, and otherwise the caller runs, registering the key as
/// in flight.
pub fn start_cached(cached: bool, inflight: &mut Vec<String>, key: &str) -> (r: CachedStart)
    ensures
        r == cached_start(cached, string_views(old(inflight)@), key@),
        string_views(final(inflight)@) == inflight_after_start(cached, string_views(old(inflight)@), key@),
{
    if cached {
        return CachedStart::Hit;
    }
    if in_flight(inflight, key) {
        return CachedStart::Join;
    }
    let ghost before = inflight@;
    inflight.push(key.to_owned());
    assert(string_views(inflight@) =~= string_views(before).push(key@));
    CachedStart::Run
}

/// What follows a finished run.
#[derive(Clone, Copy, Debug, PartialEq, Eq, Structural)]
pub struct CachedFinish {
    /// Cache the output.
    pub cache: bool,
    /// Hand the output to the waiters.
    pub publish: bool,
}

/// Finish a run for `key`: only a successful run is cached; only the
/// owner of the in-flight entry hands its output to the waiters, and it
/// removes the entry whatever the outcome (a failed run hands nothing,
/// which tells the waiters to run themselves).
pub fn finish_cached(inflight: &mut Vec<String>, key: &str, owner: bool, succeeded: bool) -> (r: CachedFinish)
    ensures
        r.cache == succeeded,
        r.publish == (owner && succeeded),
        owner ==> string_views(final(inflight)@) == string_views(old(inflight)@).filter(
            |k: Seq<char>| k != key@,
        ),
        !owner ==> final(inflight)@ == old(inflight)@,
{
    if owner {
        let ghost before = string_views(inflight@);
        let ghost p = |k: Seq<char>| k != key@;
        let mut kept: Vec<String> = Vec::new();
        let mut i: usize = 0;
        while i < inflight.len()
            invariant
                i <= inflight@.len(),
                before == string_views(inflight@),
                p == (|k: Seq<char>| k != key@),
                string_views(kept@) == before.take(i as int).filter(p),
            decreases inflight@.len() - i,
        {
            assert(before.take(i + 1).drop_last() =~= before.take(i as int));
            assert(before.take(i + 1).last() == inflight@[i as int]@);
            reveal(Seq::filter);
            if !str_eq(inflight[i].as_str(), key) {
                let ghost prev = kept@;
                kept.push(inflight[i].clone());
                assert(string_views(kept@) =~= string_views(prev).push(inflight@[i as int]@));
            }
            i = i + 1;
        }
        assert(before.take(inflight@.len() as int) =~= before);
        *inflight = kept;
    }
    CachedFinish { cache: succeeded, publish: owner && succeeded }
}

/// Concurrent calls with the same key share a single run: once a caller
/// starts running a key that is not cached, a second caller for it joins
/// that run instead of starting another.
pub proof fn law_concurrent_runs_share(inflight: Seq<Seq<char>>, key: Seq<char>)
    requires
        cached_start(false, inflight, key) == CachedStart::Run,
    ensures
        cached_start(false, inflight_after_start(false, inflight, key), key) == CachedStart::Join,
{
    assert(inflight.push(key)[inflight.len() as int] == key);
}

} // verus!
