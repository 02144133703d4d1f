//! The registry's output cache: keys, expiration, and resource bounds.
//! Entries are kept from least to most recently used.

use crate::command::string_views;
use crate::output::{Output, OutputView};
use crate::text::str_eq;
use vstd::prelude::*;

verus! {

/// Everything that identifies a run for the output cache: the resolved
/// program, its arguments, the absolute working directory, the full
/// environment (sorted by name) and the bytes written to stdin.
#[derive(Clone, Debug)]
pub struct CacheKey {
    pub program: String,
    pub args: Vec<String>,
    pub cwd: String,
    pub env: Vec<(String, String)>,
    pub input: Vec<u8>,
}

/// The mathematical view of a [`CacheKey`].
#[verifier::ext_equal]
pub struct CacheKeyView {
    pub program: Seq<char>,
    pub args: Seq<Seq<char>>,
    pub cwd: Seq<char>,
    pub env: Seq<(Seq<char>, Seq<char>)>,
    pub input: Seq<u8>,
}

/// The views of pairs of strings.
pub open spec fn pair_views(items: Seq<(String, String)>) -> Seq<(Seq<char>, Seq<char>)> {
    items.map_values(|p: (String, String)| (p.0@, p.1@))
}

impl View for CacheKey {
    type V = CacheKeyView;

    open spec fn view(&self) -> CacheKeyView {
        CacheKeyView {
            program: self.program@,
            args: string_views(self.args@),
            cwd: self.cwd@,
            env: pair_views(self.env@),
            input: self.input@,
        }
    }
}

fn strings_eq(a: &Vec<String>, b: &Vec<String>) -> (r: bool)
    ensures
        r == (string_views(a@) == string_views(b@)),
{
    if a.len() != b.len() {
        assert(string_views(a@).len() != string_views(b@).len());
        return false;
    }
    let mut i: usize = 0;
    while i < a.len()
        invariant
            i <= a@.len(),
            a@.len() == b@.len(),
            forall|k: int| 0 <= k < i ==> (#[trigger] a@[k])@ == b@[k]@,
        decreases a@.len() - i,
    {
        if !str_eq(a[i].as_str(), b[i].as_str()) {
            assert(string_views(a@)[i as int] != string_views(b@)[i as int]);
            return false;
        }
        i = i + 1;
    }
    assert(string_views(a@) =~= string_views(b@)) by {
        assert forall|k: int| 0 <= k < a@.len() implies string_views(a@)[k] == string_views(b@)[k] by {
            assert(a@[k]@ == b@[k]@);
        }
    }
    true
}

fn pairs_eq(a: &Vec<(String, String)>, b: &Vec<(String, String)>) -> (r: bool)
    ensures
        r == (pair_views(a@) == pair_views(b@)),
{
    if a.len() != b.len() {
        assert(pair_views(a@).len() != pair_views(b@).len());
        return false;
    }
    let mut i: usize = 0;
    while i < a.len()
        invariant
            i <= a@.len(),
            a@.len() == b@.len(),
            forall|k: int| 0 <= k < i ==> (#[trigger] a@[k]).0@ == b@[k].0@ && a@[k].1@ == b@[k].1@,
        decreases a@.len() - i,
    {
        if !str_eq(a[i].0.as_str(), b[i].0.as_str()) || !str_eq(a[i].1.as_str(), b[i].1.as_str()) {
            assert(pair_views(a@)[i as int] != pair_views(b@)[i as int]);
            return false;
        }
        i = i + 1;
    }
    assert(pair_views(a@) =~= pair_views(b@)) by {
        assert forall|k: int| 0 <= k < a@.len() implies pair_views(a@)[k] == pair_views(b@)[k] by {
            assert(a@[k].0@ == b@[k].0@ && a@[k].1@ == b@[k].1@);
        }
    }
    true
}

fn bytes_eq(a: &Vec<u8>, b: &Vec<u8>) -> (r: bool)
    ensures
        r == (a@ == b@),
{
    if a.len() != b.len() {
        return false;
    }
    let mut i: usize = 0;
    while i < a.len()
        invariant
            i <= a@.len(),
            a@.len() == b@.len(),
            forall|k: int| 0 <= k < i ==> a@[k] == b@[k],
        decreases a@.len() - i,
    {
        if a[i] != b[i] {
            return false;
        }
        i = i + 1;
    }
    assert(a@ =~= b@);
    true
}

impl CacheKey {
    /// Return true if both keys identify the same run.
    pub fn same_as(&self, other: &CacheKey) -> (r: bool)
        ensures
            r == (self@ == other@),
    {
        let r = str_eq(self.program.as_str(), other.program.as_str()) && strings_eq(
            &self.args,
            &other.args,
        ) && str_eq(self.cwd.as_str(), other.cwd.as_str()) && pairs_eq(&self.env, &other.env)
            && bytes_eq(&self.input, &other.input);
        if r {
            assert(self@ =~= other@);
        }
        r
    }
}

/// A cached output, with the time it was stored (in milliseconds on the
/// registry's monotonic clock).
#[derive(Debug)]
pub struct CacheEntry {
    pub key: CacheKey,
    pub output: Output,
    pub inserted: u64,
}

/// The mathematical view of a [`CacheEntry`].
pub struct EntryView {
    pub key: CacheKeyView,
    pub output: OutputView,
    pub inserted: u64,
}

impl View for CacheEntry {
    type V = EntryView;

    open spec fn view(&self) -> EntryView {
        EntryView { key: self.key@, output: self.output@, inserted: self.inserted }
    }
}

/// The views of cache entries.
pub open spec fn entry_views(entries: Seq<CacheEntry>) -> Seq<EntryView> {
    entries.map_values(|e: CacheEntry| e@)
}

/// The bytes an output holds: stdout and stderr, saturating.
pub open spec fn size_of_output(o: OutputView) -> nat {
    if o.stdout.len() + o.stderr.len() > usize::MAX {
        usize::MAX as nat
    } else {
        o.stdout.len() + o.stderr.len()
    }
}

/// The bytes all entries hold.
pub open spec fn total_bytes(s: Seq<EntryView>) -> nat
    decreases s.len(),
{
    if s.len() == 0 {
        0
    } else {
        size_of_output(s[0].output) + total_bytes(s.drop_first())
    }
}

/// How long ago, in milliseconds, an entry was stored.
pub open spec fn entry_age(now: u64, inserted: u64) -> int {
    if now >= inserted {
        now - inserted
    } else {
        0
    }
}

/// True while an entry has not expired.
pub open spec fn is_live(e: EntryView, ttl: u64, now: u64) -> bool {
    entry_age(now, e.inserted) < ttl
}

/// An entry survives a sweep: it is live and, when a key is excluded,
/// has another key.
pub open spec fn survives(e: EntryView, ttl: u64, now: u64, exclude: Option<CacheKeyView>) -> bool {
    is_live(e, ttl, now) && match exclude {
        Some(k) => e.key != k,
        None => true,
    }
}

/// The test of [`survives`] for one sweep.
pub open spec fn survivor(ttl: u64, now: u64, exclude: Option<CacheKeyView>) -> spec_fn(EntryView) -> bool {
    |e: EntryView| survives(e, ttl, now, exclude)
}

/// The entries that survive a sweep, in order.
pub open spec fn swept(s: Seq<EntryView>, ttl: u64, now: u64, exclude: Option<CacheKeyView>) -> Seq<EntryView> {
    s.filter(survivor(ttl, now, exclude))
}

/// No key occurs twice.
pub open spec fn keys_distinct(s: Seq<EntryView>) -> bool {
    forall|i: int, j: int| 0 <= i < j < s.len() ==> (#[trigger] s[i]).key != (#[trigger] s[j]).key
}

/// True when some entry has the key.
pub open spec fn has_key(s: Seq<EntryView>, k: CacheKeyView) -> bool {
    exists|i: int| 0 <= i < s.len() && (#[trigger] s[i]).key == k
}

/// The position of the entry with the key.
pub open spec fn key_position(s: Seq<EntryView>, k: CacheKeyView) -> int {
    choose|i: int| 0 <= i < s.len() && (#[trigger] s[i]).key == k
}

/// The entries after a hit at `i`: that entry becomes the most recent.
pub open spec fn touched(s: Seq<EntryView>, i: int) -> Seq<EntryView> {
    s.remove(i).push(s[i])
}

/// How many of the oldest entries are evicted so that fewer than
/// `capacity` remain, holding at most `budget` bytes.
pub open spec fn evictions(s: Seq<EntryView>, capacity: nat, budget: int) -> nat
    decreases s.len(),
{
    if s.len() == 0 || (s.len() < capacity && total_bytes(s) <= budget) {
        0
    } else {
        1 + evictions(s.drop_first(), capacity, budget)
    }
}

/// The entries after storing `e`: expired entries and any earlier entry
/// with its key are dropped, the oldest are evicted to make room, and
/// `e` becomes the most recent.
pub open spec fn stored(s: Seq<EntryView>, e: EntryView, ttl: u64, capacity: nat, max_bytes: nat) -> Seq<EntryView> {
    let kept = swept(s, ttl, e.inserted, Some(e.key));
    kept.skip(evictions(kept, capacity, max_bytes - size_of_output(e.output)) as int).push(e)
}

proof fn lemma_total_add(a: Seq<EntryView>, b: Seq<EntryView>)
    ensures
        total_bytes(a + b) == total_bytes(a) + total_bytes(b),
    decreases a.len(),
{
    if a.len() > 0 {
        assert((a + b).drop_first() =~= a.drop_first() + b);
        lemma_total_add(a.drop_first(), b);
    } else {
        assert(a + b =~= b);
    }
}

proof fn lemma_total_push(a: Seq<EntryView>, e: EntryView)
    ensures
        total_bytes(a.push(e)) == total_bytes(a) + size_of_output(e.output),
{
    assert(a.push(e) =~= a + seq![e]);
    lemma_total_add(a, seq![e]);
    assert(seq![e].drop_first() =~= Seq::<EntryView>::empty());
    assert(total_bytes(seq![e]) == size_of_output(e.output) + total_bytes(seq![e].drop_first()));
}

proof fn lemma_total_split(s: Seq<EntryView>, k: int)
    requires
        0 <= k <= s.len(),
    ensures
        total_bytes(s) == total_bytes(s.take(k)) + total_bytes(s.skip(k)),
{
    assert(s =~= s.take(k) + s.skip(k));
    lemma_total_add(s.take(k), s.skip(k));
}

proof fn lemma_filter_total_le(s: Seq<EntryView>, p: spec_fn(EntryView) -> bool)
    ensures
        total_bytes(s.filter(p)) <= total_bytes(s),
    decreases s.len(),
{
    reveal(Seq::filter);
    if s.len() > 0 {
        lemma_filter_total_le(s.drop_last(), p);
        assert(s =~= s.drop_last().push(s.last()));
        lemma_total_push(s.drop_last(), s.last());
        if p(s.last()) {
            lemma_total_push(s.drop_last().filter(p), s.last());
        }
    }
}

proof fn lemma_filter_contained(s: Seq<EntryView>, p: spec_fn(EntryView) -> bool, i: int)
    requires
        0 <= i < s.filter(p).len(),
    ensures
        s.contains(s.filter(p)[i]),
    decreases s.len(),
{
    reveal(Seq::filter);
    if s.len() > 0 {
        let d = s.drop_last().filter(p);
        if i < d.len() {
            lemma_filter_contained(s.drop_last(), p, i);
            let j = choose|j: int| 0 <= j < s.drop_last().len() && s.drop_last()[j] == d[i];
            assert(s[j] == s.filter(p)[i]);
        } else {
            assert(s[s.len() - 1] == s.filter(p)[i]);
        }
    }
}

proof fn lemma_filter_distinct(s: Seq<EntryView>, p: spec_fn(EntryView) -> bool)
    requires
        keys_distinct(s),
    ensures
        keys_distinct(s.filter(p)),
    decreases s.len(),
{
    reveal(Seq::filter);
    if s.len() > 0 {
        let d = s.drop_last();
        assert(keys_distinct(d)) by {
            assert forall|i: int, j: int| 0 <= i < j < d.len() implies (#[trigger] d[i]).key != (#[trigger] d[j]).key by {
                assert(d[i] == s[i] && d[j] == s[j]);
            }
        }
        lemma_filter_distinct(d, p);
        if p(s.last()) {
            let f = d.filter(p);
            let g = s.filter(p);
            assert forall|i: int, j: int| 0 <= i < j < g.len() implies (#[trigger] g[i]).key != (#[trigger] g[j]).key by {
                if j == g.len() - 1 {
                    lemma_filter_contained(d, p, i);
                    let k = choose|k: int| 0 <= k < d.len() && d[k] == f[i];
                    assert(s[k] == d[k]);
                    assert(g[j] == s[s.len() - 1]);
                } else {
                    assert(g[i] == f[i] && g[j] == f[j]);
                }
            }
        }
    }
}

proof fn lemma_touched(s: Seq<EntryView>, i: int)
    requires
        0 <= i < s.len(),
        keys_distinct(s),
    ensures
        keys_distinct(touched(s, i)),
        total_bytes(touched(s, i)) == total_bytes(s),
        touched(s, i).len() == s.len(),
{
    let t = touched(s, i);
    assert forall|a: int, b: int| 0 <= a < b < t.len() implies (#[trigger] t[a]).key != (#[trigger] t[b]).key by {
        let ia = if a < i { a } else { a + 1 };
        if b == t.len() - 1 {
            assert(t[a] == s[ia] && t[b] == s[i]);
        } else {
            let ib = if b < i { b } else { b + 1 };
            assert(t[a] == s[ia] && t[b] == s[ib]);
        }
    }
    lemma_total_split(s, i);
    lemma_total_split(s.skip(i), 1);
    assert(s.skip(i).take(1) =~= seq![s[i]]);
    assert(s.skip(i).skip(1) =~= s.skip(i + 1));
    assert(seq![s[i]].drop_first() =~= Seq::<EntryView>::empty());
    assert(s.remove(i) =~= s.take(i) + s.skip(i + 1));
    lemma_total_add(s.take(i), s.skip(i + 1));
    lemma_total_push(s.remove(i), s[i]);
}

/// The registry's output cache. Its entries are ordered from least to
/// most recently used, no key occurs twice, and it knows the bytes they
/// hold.
#[derive(Debug)]
pub struct OutputCache {
    entries: Vec<CacheEntry>,
    bytes: usize,
}

impl View for OutputCache {
    type V = Seq<EntryView>;

    closed spec fn view(&self) -> Seq<EntryView> {
        entry_views(self.entries@)
    }
}

/// The bytes an output holds: stdout and stderr, saturating.
pub fn output_size(output: &Output) -> (r: usize)
    ensures
        r == size_of_output(output@),
{
    output.stdout.len().saturating_add(output.stderr.len())
}

/// True while the entry has not expired.
fn is_fresh(e: &CacheEntry, ttl: u64, now: u64) -> (r: bool)
    ensures
        r == is_live(e@, ttl, now),
{
    let age: u64 = if now >= e.inserted {
        now - e.inserted
    } else {
        0
    };
    age < ttl
}

/// Take the entries of `entries` that survive a sweep, in order, and the
/// bytes they hold.
fn sweep(entries: Vec<CacheEntry>, ttl: u64, now: u64, exclude: Option<&CacheKey>) -> (r: (
    Vec<CacheEntry>,
    usize,
))
    requires
        total_bytes(entry_views(entries@)) <= usize::MAX,
    ensures
        entry_views(r.0@) == swept(
            entry_views(entries@),
            ttl,
            now,
            match exclude {
                Some(k) => Some(k@),
                None => None,
            },
        ),
        r.1 == total_bytes(entry_views(r.0@)),
{
    let ghost ex = match exclude {
        Some(k) => Some(k@),
        None => None,
    };
    let ghost all = entry_views(entries@);
    let ghost p = survivor(ttl, now, ex);
    let mut rest = entries;
    let mut kept: Vec<CacheEntry> = Vec::new();
    let mut bytes: usize = 0;
    let ghost mut n: int = 0;
    assert(all.skip(0) =~= all);
    while rest.len() > 0
        invariant
            0 <= n <= all.len(),
            entry_views(rest@) == all.skip(n),
            entry_views(kept@) == all.take(n).filter(p),
            bytes == total_bytes(entry_views(kept@)),
            total_bytes(all) <= usize::MAX,
            p == survivor(ttl, now, ex),
            ex == match exclude {
                Some(k) => Some(k@),
                None => None,
            },
        decreases rest@.len(),
    {
        let ghost rest_before = rest@;
        assert(entry_views(rest_before).len() == rest_before.len());
        assert(entry_views(rest_before)[0] == rest_before[0]@);
        let e = rest.remove(0);
        assert(e@ == all[n]);
        assert(entry_views(rest@) =~= all.skip(n + 1)) by {
            assert forall|k: int| 0 <= k < rest@.len() implies entry_views(rest@)[k] == all.skip(n + 1)[k] by {
                assert(rest@[k] == rest_before[k + 1]);
                assert(entry_views(rest_before)[k + 1] == rest_before[k + 1]@);
            }
        }
        assert(all.take(n + 1).drop_last() =~= all.take(n));
        assert(all.take(n + 1).last() == all[n]);
        reveal(Seq::filter);
        let keep = is_fresh(&e, ttl, now) && match exclude {
            Some(k) => !e.key.same_as(k),
            None => true,
        };
        if keep {
            proof {
                lemma_total_split(all, n + 1);
                lemma_filter_total_le(all.take(n + 1), p);
                lemma_total_push(entry_views(kept@), e@);
            }
            bytes = bytes + output_size(&e.output);
            let ghost before = entry_views(kept@);
            kept.push(e);
            assert(entry_views(kept@) =~= before.push(e@));
        }
        proof {
            n = n + 1;
        }
    }
    assert(all.take(n) =~= all);
    (kept, bytes)
}


/// What a lookup of `k` returns: the output of its live entry, if any.
pub open spec fn lookup_result(s: Seq<EntryView>, k: CacheKeyView, ttl: u64, now: u64) -> Option<OutputView> {
    let live = swept(s, ttl, now, None);
    if has_key(live, k) {
        Some(live[key_position(live, k)].output)
    } else {
        None
    }
}

/// The entries after a lookup of `k`: expired entries are dropped, and a
/// hit becomes the most recent.
pub open spec fn after_lookup(s: Seq<EntryView>, k: CacheKeyView, ttl: u64, now: u64) -> Seq<EntryView> {
    let live = swept(s, ttl, now, None);
    if has_key(live, k) {
        touched(live, key_position(live, k))
    } else {
        live
    }
}

impl OutputCache {
    #[verifier::type_invariant]
    closed spec fn wf(&self) -> bool {
        &&& self.bytes == total_bytes(self@)
        &&& keys_distinct(self@)
    }

    /// An empty cache.
    pub fn new() -> (r: OutputCache)
        ensures
            r@ == Seq::<EntryView>::empty(),
    {
        let r = OutputCache { entries: Vec::new(), bytes: 0 };
        assert(r@ =~= Seq::<EntryView>::empty());
        r
    }

    /// Discard every entry.
    pub fn clear(&mut self)
        ensures
            final(self)@ == Seq::<EntryView>::empty(),
    {
        *self = OutputCache::new();
    }

    /// The number of entries.
    pub fn len(&self) -> (r: usize)
        ensures
            r == self@.len(),
    {
        self.entries.len()
    }

    /// The bytes the entries hold.
    pub fn bytes(&self) -> (r: usize)
        ensures
            r == total_bytes(self@),
    {
        proof {
            use_type_invariant(self);
        }
        self.bytes
    }

    /// No key occurs twice among the entries.
    pub fn has_distinct_keys(&self) -> (r: bool)
        ensures
            r,
            keys_distinct(self@),
    {
        proof {
            use_type_invariant(self);
        }
        true
    }

    /// Drop expired entries, then return the output cached for `key`, if
    /// any, making that entry the most recently used.
    pub fn lookup(&mut self, key: &CacheKey, ttl: u64, now: u64) -> (r: Option<Output>)
        ensures
            r is None <==> lookup_result(old(self)@, key@, ttl, now) is None,
            r matches Some(o) ==> lookup_result(old(self)@, key@, ttl, now) == Some(o@),
            final(self)@ == after_lookup(old(self)@, key@, ttl, now),
    {
        proof {
            use_type_invariant(&*self);
        }
        let ghost start = self@;
        let mut taken = OutputCache::new();
        std::mem::swap(self, &mut taken);
        let OutputCache { entries, bytes: _ } = taken;
        let (mut kept, kept_bytes) = sweep(entries, ttl, now, None);
        let ghost live = swept(start, ttl, now, None);
        proof {
            lemma_filter_distinct(start, survivor(ttl, now, None));
        }
        let mut i: usize = 0;
        while i < kept.len() && !kept[i].key.same_as(key)
            invariant
                entry_views(kept@) == live,
                i <= kept@.len(),
                forall|k: int| 0 <= k < i ==> (#[trigger] live[k]).key != key@,
            decreases kept@.len() - i,
        {
            assert(live[i as int] == kept@[i as int]@);
            i = i + 1;
        }
        if i < kept.len() {
            assert(live[i as int] == kept@[i as int]@);
            assert(has_key(live, key@));
            assert(i == key_position(live, key@));
            let ghost before = kept@;
            let e = kept.remove(i);
            let out = e.output.duplicate();
            kept.push(e);
            proof {
                lemma_touched(live, i as int);
                assert(entry_views(kept@) =~= touched(live, i as int)) by {
                    assert forall|k: int| 0 <= k < kept@.len() implies entry_views(kept@)[k] == touched(live, i as int)[k] by {
                        if k < i {
                            assert(kept@[k] == before[k]);
                        } else if k < kept@.len() - 1 {
                            assert(kept@[k] == before[k + 1]);
                        }
                    }
                }
            }
            *self = OutputCache { entries: kept, bytes: kept_bytes };
            Some(out)
        } else {
            assert(!has_key(live, key@));
            *self = OutputCache { entries: kept, bytes: kept_bytes };
            None
        }
    }

    /// Store `output` under `key` at time `now`: expired entries and any
    /// earlier entry for the key are dropped, then the least recently used
    /// entries are evicted until fewer than `capacity` remain and the new
    /// output fits within `max_bytes`.
    pub fn store(&mut self, key: CacheKey, output: Output, capacity: usize, max_bytes: usize, ttl: u64, now: u64)
        requires
            capacity > 0,
            size_of_output(output@) <= max_bytes,
        ensures
            final(self)@ == stored(
                old(self)@,
                EntryView { key: key@, output: output@, inserted: now },
                ttl,
                capacity as nat,
                max_bytes as nat,
            ),
    {
        proof {
            use_type_invariant(&*self);
        }
        let ghost start = self@;
        let ghost e_view = EntryView { key: key@, output: output@, inserted: now };
        let mut taken = OutputCache::new();
        std::mem::swap(self, &mut taken);
        let OutputCache { entries, bytes: _ } = taken;
        let size = output_size(&output);
        let (mut kept, mut bytes) = sweep(entries, ttl, now, Some(&key));
        let ghost k0 = swept(start, ttl, now, Some(key@));
        let ghost p = survivor(ttl, now, Some(key@));
        proof {
            lemma_filter_distinct(start, p);
            assert(k0.skip(0) =~= k0);
        }
        let budget = max_bytes - size;
        let ghost mut m: int = 0;
        while kept.len() > 0 && (kept.len() >= capacity || bytes > budget)
            invariant
                0 <= m <= k0.len(),
                entry_views(kept@) == k0.skip(m),
                bytes == total_bytes(entry_views(kept@)),
                m + evictions(entry_views(kept@), capacity as nat, budget as int) == evictions(
                    k0,
                    capacity as nat,
                    budget as int,
                ),
            decreases kept@.len(),
        {
            let ghost before = kept@;
            assert(entry_views(before)[0] == before[0]@);
            let e = kept.remove(0);
            assert(entry_views(kept@) =~= entry_views(before).drop_first()) by {
                assert forall|k: int| 0 <= k < kept@.len() implies entry_views(kept@)[k] == entry_views(before).drop_first()[k] by {
                    assert(kept@[k] == before[k + 1]);
                }
            }
            bytes = bytes - output_size(&e.output);
            proof {
                assert(k0.skip(m).drop_first() =~= k0.skip(m + 1));
                m = m + 1;
            }
        }
        assert(evictions(entry_views(kept@), capacity as nat, budget as int) == 0);
        proof {
            assert forall|a: int, b: int| 0 <= a < b < entry_views(kept@).len() implies (#[trigger] entry_views(kept@)[a]).key
                != (#[trigger] entry_views(kept@)[b]).key by {
                assert(entry_views(kept@)[a] == k0[a + m] && entry_views(kept@)[b] == k0[b + m]);
            }
            lemma_total_push(entry_views(kept@), e_view);
        }
        let ghost before = kept@;
        kept.push(CacheEntry { key, output, inserted: now });
        proof {
            assert(entry_views(kept@) =~= entry_views(before).push(e_view));
            assert forall|a: int, b: int| 0 <= a < b < entry_views(kept@).len() implies (#[trigger] entry_views(kept@)[a]).key
                != (#[trigger] entry_views(kept@)[b]).key by {
                if b == entry_views(kept@).len() - 1 {
                    assert(entry_views(kept@)[a] == k0[a + m]);
                    start.lemma_filter_pred(p, a + m);
                } else {
                    assert(entry_views(kept@)[a] == entry_views(before)[a]);
                    assert(entry_views(kept@)[b] == entry_views(before)[b]);
                }
            }
        }
        *self = OutputCache { entries: kept, bytes: bytes + size };
    }
}


proof fn lemma_evictions_make_room(s: Seq<EntryView>, capacity: nat, budget: int)
    ensures
        evictions(s, capacity, budget) <= s.len(),
        ({
            let rest = s.skip(evictions(s, capacity, budget) as int);
            rest.len() == 0 || (rest.len() < capacity && total_bytes(rest) <= budget)
        }),
    decreases s.len(),
{
    if s.len() == 0 || (s.len() < capacity && total_bytes(s) <= budget) {
        assert(s.skip(0) =~= s);
    } else {
        lemma_evictions_make_room(s.drop_first(), capacity, budget);
        let d = evictions(s.drop_first(), capacity, budget);
        assert(s.skip((d + 1) as int) =~= s.drop_first().skip(d as int));
    }
}

proof fn lemma_filter_all(s: Seq<EntryView>, p: spec_fn(EntryView) -> bool)
    requires
        forall|i: int| 0 <= i < s.len() ==> p(#[trigger] s[i]),
    ensures
        s.filter(p) == s,
    decreases s.len(),
{
    reveal(Seq::filter);
    if s.len() > 0 {
        lemma_filter_all(s.drop_last(), p);
        assert(p(s[s.len() - 1]));
        assert(s.drop_last().push(s.last()) =~= s);
    }
}

/// Storing an output leaves at most `capacity` entries holding at most
/// `max_bytes` bytes, whatever the cache held before.
pub proof fn law_store_respects_bounds(s: Seq<EntryView>, e: EntryView, ttl: u64, capacity: nat, max_bytes: nat)
    requires
        capacity > 0,
        size_of_output(e.output) <= max_bytes,
    ensures
        stored(s, e, ttl, capacity, max_bytes).len() <= capacity,
        total_bytes(stored(s, e, ttl, capacity, max_bytes)) <= max_bytes,
{
    let kept = swept(s, ttl, e.inserted, Some(e.key));
    let budget = max_bytes - size_of_output(e.output);
    lemma_evictions_make_room(kept, capacity, budget);
    let rest = kept.skip(evictions(kept, capacity, budget) as int);
    lemma_total_push(rest, e);
}

/// A lookup right after storing an output, at the same time and with the
/// same expiry, finds that output.
pub proof fn law_lookup_after_store(s: Seq<EntryView>, e: EntryView, ttl: u64, capacity: nat, max_bytes: nat)
    requires
        ttl > 0,
    ensures
        lookup_result(stored(s, e, ttl, capacity, max_bytes), e.key, ttl, e.inserted) == Some(e.output),
        after_lookup(stored(s, e, ttl, capacity, max_bytes), e.key, ttl, e.inserted) == stored(
            s,
            e,
            ttl,
            capacity,
            max_bytes,
        ),
{
    let p = survivor(ttl, e.inserted, Some(e.key));
    let kept = swept(s, ttl, e.inserted, Some(e.key));
    let d = evictions(kept, capacity, max_bytes - size_of_output(e.output));
    let t = stored(s, e, ttl, capacity, max_bytes);
    let n = t.len() - 1;
    assert forall|i: int| 0 <= i < t.len() implies survivor(ttl, e.inserted, None)(#[trigger] t[i]) && (i < n
        ==> t[i].key != e.key) by {
        if i < n {
            lemma_evictions_make_room(kept, capacity, max_bytes - size_of_output(e.output));
            assert(t[i] == kept[i + d]);
            s.lemma_filter_pred(p, i + d);
        }
    }
    lemma_filter_all(t, survivor(ttl, e.inserted, None));
    assert(t[n] == e);
    assert(has_key(t, e.key));
    let j = key_position(t, e.key);
    assert(j == n);
    assert(touched(t, n) =~= t);
}

} // verus!
