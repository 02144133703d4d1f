//! The output cache key of a command: a stable hash of everything that
//! decides what the command produces.

use crate::command::{arg_values, distinct_keys, env_map, lemma_env_map_dom, lemma_env_map_value, exe_text, string_views, Command, Env, EnvView, Executable};
use crate::text::{chars_of, decimal_digits, u64_to_decimal};
use rustc_hash::FxHasher;
use std::hash::Hasher;
use vstd::prelude::*;
use vstd::utf8::encode_utf8;

verus! {

/// Byte order of UTF-8 strings, which is the order of their code points:
/// `a` sorts strictly before `b`.
pub open spec fn lex_lt(a: Seq<char>, b: Seq<char>) -> bool
    decreases a.len(),
{
    if a.len() == 0 {
        b.len() > 0
    } else if b.len() == 0 {
        false
    } else if a[0] != b[0] {
        (a[0] as u32) < (b[0] as u32)
    } else {
        lex_lt(a.drop_first(), b.drop_first())
    }
}

pub(crate) proof fn lemma_lex_irreflexive(a: Seq<char>)
    ensures
        !lex_lt(a, a),
    decreases a.len(),
{
    if a.len() > 0 {
        lemma_lex_irreflexive(a.drop_first());
    }
}

pub(crate) proof fn lemma_lex_asymmetric(a: Seq<char>, b: Seq<char>)
    ensures
        !(lex_lt(a, b) && lex_lt(b, a)),
    decreases a.len(),
{
    if a.len() > 0 && b.len() > 0 && a[0] == b[0] {
        lemma_lex_asymmetric(a.drop_first(), b.drop_first());
    }
}

pub(crate) proof fn lemma_lex_transitive(a: Seq<char>, b: Seq<char>, c: Seq<char>)
    requires
        lex_lt(a, b),
        lex_lt(b, c),
    ensures
        lex_lt(a, c),
    decreases a.len(),
{
    if a.len() > 0 && b.len() > 0 && c.len() > 0 {
        if a[0] == b[0] && b[0] == c[0] {
            lemma_lex_transitive(a.drop_first(), b.drop_first(), c.drop_first());
        }
    }
}

proof fn lemma_char_eq_by_code(x: char, y: char)
    requires
        x as u32 == y as u32,
    ensures
        x == y,
{
}

pub(crate) proof fn lemma_lex_total(a: Seq<char>, b: Seq<char>)
    requires
        a != b,
    ensures
        lex_lt(a, b) || lex_lt(b, a),
    decreases a.len(),
{
    if a.len() > 0 && b.len() > 0 {
        if a[0] == b[0] {
            if a.drop_first() == b.drop_first() {
                assert(a =~= seq![a[0]] + a.drop_first());
                assert(b =~= seq![b[0]] + b.drop_first());
            }
            lemma_lex_total(a.drop_first(), b.drop_first());
        } else {
            if (a[0] as u32) == (b[0] as u32) {
                lemma_char_eq_by_code(a[0], b[0]);
            }
        }
    } else if a.len() == 0 && b.len() == 0 {
        assert(a =~= b);
    }
}

/// Returns true if `a` sorts strictly before `b` by bytes.
pub fn key_less(a: &str, b: &str) -> (r: bool)
    ensures
        r == lex_lt(a@, b@),
{
    let x = chars_of(a);
    let y = chars_of(b);
    let mut i: usize = 0;
    assert(x@.skip(0) =~= x@);
    assert(y@.skip(0) =~= y@);
    while i < x.len() && i < y.len() && x[i] == y[i]
        invariant
            x@ == a@,
            y@ == b@,
            i <= x@.len(),
            i <= y@.len(),
            lex_lt(a@, b@) == lex_lt(x@.skip(i as int), y@.skip(i as int)),
        decreases x@.len() - i,
    {
        assert(x@.skip(i as int).drop_first() =~= x@.skip(i + 1));
        assert(y@.skip(i as int).drop_first() =~= y@.skip(i + 1));
        i = i + 1;
    }
    if i == x.len() {
        return i < y.len();
    }
    if i == y.len() {
        return false;
    }
    assert(x@.skip(i as int)[0] == x@[i as int]);
    assert(y@.skip(i as int)[0] == y@[i as int]);
    (x[i] as u32) < (y[i] as u32)
}

/// `s` lists the variables of `m` exactly, once each, in strictly
/// increasing byte order of their names.
pub open spec fn sorted_listing(s: Seq<(Seq<char>, EnvView)>, m: Map<Seq<char>, EnvView>) -> bool {
    &&& forall|i: int, j: int| 0 <= i < j < s.len() ==> lex_lt(#[trigger] s[i].0, #[trigger] s[j].0)
    &&& forall|i: int| 0 <= i < s.len() ==> m.dom().contains(#[trigger] s[i].0) && m[s[i].0] == s[i].1
    &&& forall|k: Seq<char>| #[trigger] m.dom().contains(k) ==> exists|i: int| 0 <= i < s.len() && (#[trigger] s[i]).0 == k
}

/// The variables of `m`, sorted by name.
pub open spec fn sorted_env(m: Map<Seq<char>, EnvView>) -> Seq<(Seq<char>, EnvView)> {
    choose|s: Seq<(Seq<char>, EnvView)>| sorted_listing(s, m)
}

proof fn lemma_sorted_listing_unique(s1: Seq<(Seq<char>, EnvView)>, s2: Seq<(Seq<char>, EnvView)>, m: Map<Seq<char>, EnvView>)
    requires
        sorted_listing(s1, m),
        sorted_listing(s2, m),
    ensures
        s1 == s2,
    decreases s1.len(),
{
    if s1.len() == 0 {
        if s2.len() > 0 {
            assert(m.dom().contains(s2[0].0));
        }
        assert(s1 =~= s2);
    } else {
        assert(m.dom().contains(s1[0].0));
        let j = choose|j: int| 0 <= j < s2.len() && (#[trigger] s2[j]).0 == s1[0].0;
        assert(m.dom().contains(s2[0].0));
        let i = choose|i: int| 0 <= i < s1.len() && (#[trigger] s1[i]).0 == s2[0].0;
        if j > 0 && i > 0 {
            assert(lex_lt(s2[0].0, s2[j].0));
            assert(lex_lt(s1[0].0, s1[i].0));
            lemma_lex_asymmetric(s1[0].0, s2[0].0);
        }
        assert(s1[0].0 == s2[0].0);
        let a = s1[0].0;
        let m2 = m.remove(a);
        let t1 = s1.drop_first();
        let t2 = s2.drop_first();
        assert(sorted_listing(t1, m2)) by {
            assert forall|x: int| 0 <= x < t1.len() implies m2.dom().contains(#[trigger] t1[x].0) && m2[t1[x].0] == t1[x].1 by {
                assert(t1[x] == s1[x + 1]);
                assert(lex_lt(s1[0].0, s1[x + 1].0));
                lemma_lex_irreflexive(a);
            }
            assert forall|k: Seq<char>| #[trigger] m2.dom().contains(k) implies exists|x: int| 0 <= x < t1.len() && (#[trigger] t1[x]).0 == k by {
                let x = choose|x: int| 0 <= x < s1.len() && (#[trigger] s1[x]).0 == k;
                assert(x > 0);
                assert(t1[x - 1] == s1[x]);
            }
            assert forall|x: int, y: int| 0 <= x < y < t1.len() implies lex_lt(#[trigger] t1[x].0, #[trigger] t1[y].0) by {
                assert(t1[x] == s1[x + 1] && t1[y] == s1[y + 1]);
            }
        }
        assert(sorted_listing(t2, m2)) by {
            assert forall|x: int| 0 <= x < t2.len() implies m2.dom().contains(#[trigger] t2[x].0) && m2[t2[x].0] == t2[x].1 by {
                assert(t2[x] == s2[x + 1]);
                assert(lex_lt(s2[0].0, s2[x + 1].0));
                lemma_lex_irreflexive(a);
            }
            assert forall|k: Seq<char>| #[trigger] m2.dom().contains(k) implies exists|x: int| 0 <= x < t2.len() && (#[trigger] t2[x]).0 == k by {
                let x = choose|x: int| 0 <= x < s2.len() && (#[trigger] s2[x]).0 == k;
                assert(x > 0);
                assert(t2[x - 1] == s2[x]);
            }
            assert forall|x: int, y: int| 0 <= x < y < t2.len() implies lex_lt(#[trigger] t2[x].0, #[trigger] t2[y].0) by {
                assert(t2[x] == s2[x + 1] && t2[y] == s2[y + 1]);
            }
        }
        lemma_sorted_listing_unique(t1, t2, m2);
        assert(s1[0] == s2[0]);
        assert(s1 =~= seq![s1[0]] + t1);
        assert(s2 =~= seq![s2[0]] + t2);
    }
}


/// One input fed to the cache-key hasher.
pub enum HashInput {
    /// A single byte, fed with `write_u8`.
    Byte(u8),
    /// A machine word, fed with `write_usize`.
    Word(usize),
    /// A byte string, fed with `write`.
    Bytes(Seq<u8>),
}

/// One input fed to the cache-key hasher, as held in memory.
pub enum HashItem {
    /// A single byte.
    Byte(u8),
    /// A machine word.
    Word(usize),
    /// A byte string.
    Bytes(Vec<u8>),
}

impl View for HashItem {
    type V = HashInput;

    open spec fn view(&self) -> HashInput {
        match self {
            HashItem::Byte(b) => HashInput::Byte(*b),
            HashItem::Word(w) => HashInput::Word(*w),
            HashItem::Bytes(bytes) => HashInput::Bytes(bytes@),
        }
    }
}

/// The inputs that a list of held items stands for.
pub open spec fn item_inputs(items: Seq<HashItem>) -> Seq<HashInput> {
    items.map_values(|x: HashItem| x@)
}

/// What an `FxHasher` fresh from `FxHasher::default` returns from
/// `Hasher::finish` after being fed the given inputs in order (bytes with
/// `write_u8`, words with `write_usize`, byte strings with `write`).
pub uninterp spec fn fx_finish(inputs: Seq<HashInput>) -> u64;

/// Feeds the items, in order, to a fresh `rustc_hash::FxHasher`
/// (`FxHasher::default`, then `write_u8`, `write_usize` or `write` for
/// each) and returns its `finish`. The hash is an unseeded function of the
/// inputs (for the target's word width); the contract names it and says no
/// more of it.
#[verifier::external_body]
fn fx_hash_items(items: &Vec<HashItem>) -> (r: u64)
    ensures
        r == fx_finish(item_inputs(items@)),
{
    let mut hasher = FxHasher::default();
    for item in items {
        match item {
            HashItem::Byte(byte) => hasher.write_u8(*byte),
            HashItem::Word(word) => hasher.write_usize(*word),
            HashItem::Bytes(bytes) => hasher.write(bytes),
        }
    }
    hasher.finish()
}

fn push_item(items: &mut Vec<HashItem>, item: HashItem)
    ensures
        item_inputs(final(items)@) == item_inputs(old(items)@).push(item@),
{
    items.push(item);
    assert(item_inputs(items@) =~= item_inputs(old(items)@).push(item@));
}

/// The inputs for one string: its UTF-8 byte length, then its bytes.
pub open spec fn text_inputs(s: Seq<char>) -> Seq<HashInput> {
    seq![HashInput::Word(encode_utf8(s).len() as usize), HashInput::Bytes(encode_utf8(s))]
}

/// The inputs for a list of strings, one after the other.
pub open spec fn texts_inputs(items: Seq<Seq<char>>) -> Seq<HashInput>
    decreases items.len(),
{
    if items.len() == 0 {
        Seq::empty()
    } else {
        texts_inputs(items.drop_last()) + text_inputs(items.last())
    }
}

/// The inputs for one environment variable: its name, then a tag byte
/// for its behavior (0 unset, 1 set, 2 set if missing) and its value.
pub open spec fn env_entry_inputs(name: Seq<char>, value: EnvView) -> Seq<HashInput> {
    text_inputs(name) + match value {
        EnvView::SetAlways(v) => seq![HashInput::Byte(1)] + text_inputs(v),
        EnvView::SetIfMissing(v) => seq![HashInput::Byte(2)] + text_inputs(v),
        EnvView::Unset => seq![HashInput::Byte(0)],
    }
}

/// The inputs for a list of environment variables, one after the other.
pub open spec fn env_list_inputs(s: Seq<(Seq<char>, EnvView)>) -> Seq<HashInput>
    decreases s.len(),
{
    if s.len() == 0 {
        Seq::empty()
    } else {
        env_list_inputs(s.drop_last()) + env_entry_inputs(s.last().0, s.last().1)
    }
}

/// Everything a command's cache key is hashed from: its environment
/// variables sorted by name, its executable, its arguments' raw values,
/// its working directory and its input.
pub open spec fn cache_key_inputs(c: Command) -> Seq<HashInput> {
    env_list_inputs(sorted_env(c.env@)) + text_inputs(exe_text(c.exe)) + texts_inputs(
        arg_values(c.args@),
    ) + match c.cwd {
        Some(d) => text_inputs(d@),
        None => Seq::empty(),
    } + texts_inputs(string_views(c.input@))
}

/// A command's cache key: the decimal digits of the hash of its inputs.
pub open spec fn cache_key(c: Command) -> Seq<char> {
    decimal_digits(fx_finish(cache_key_inputs(c)) as nat)
}

/// Feed one string, length first.
fn write_text(h: &mut Vec<HashItem>, s: &str)
    ensures
        item_inputs(final(h)@) == item_inputs(old(h)@) + text_inputs(s@),
{
    let bytes = s.as_bytes();
    push_item(h, HashItem::Word(bytes.len()));
    push_item(h, HashItem::Bytes(vstd::slice::slice_to_vec(bytes)));
    assert(item_inputs(h@) =~= item_inputs(old(h)@) + text_inputs(s@));
}


/// The names and behaviors of `entries`, taken in the order of `order`.
pub open spec fn listing_in(entries: Seq<(String, Env)>, order: Seq<usize>) -> Seq<(Seq<char>, EnvView)> {
    order.map_values(|j: usize| (entries[j as int].0@, entries[j as int].1@))
}

/// Inserting `x` at `p` keeps `order` strictly sorted by name, when every
/// name before `p` sorts before that of `x` and the name at `p` after it.
proof fn lemma_insert_keeps_sorted(entries: Seq<(String, Env)>, order: Seq<usize>, p: int, x: usize)
    requires
        0 <= p <= order.len(),
        x < entries.len(),
        forall|k: int| 0 <= k < order.len() ==> order[k] < entries.len(),
        forall|a: int, b: int|
            0 <= a < b < order.len() ==> lex_lt(
                #[trigger] entries[order[a] as int].0@,
                #[trigger] entries[order[b] as int].0@,
            ),
        forall|a: int| 0 <= a < p ==> lex_lt(#[trigger] entries[order[a] as int].0@, entries[x as int].0@),
        p < order.len() ==> lex_lt(entries[x as int].0@, entries[order[p] as int].0@),
    ensures
        forall|a: int, b: int|
            0 <= a < b < order.insert(p, x).len() ==> lex_lt(
                #[trigger] entries[order.insert(p, x)[a] as int].0@,
                #[trigger] entries[order.insert(p, x)[b] as int].0@,
            ),
{
    let n = order.insert(p, x);
    assert forall|a: int, b: int| 0 <= a < b < n.len() implies lex_lt(
        #[trigger] entries[n[a] as int].0@,
        #[trigger] entries[n[b] as int].0@,
    ) by {
        if b < p {
            assert(n[a] == order[a] && n[b] == order[b]);
        } else if b == p {
            assert(n[a] == order[a] && n[b] == x);
        } else if a < p {
            assert(n[a] == order[a] && n[b] == order[b - 1]);
            assert(lex_lt(entries[x as int].0@, entries[order[p] as int].0@));
            if p < b - 1 {
                lemma_lex_transitive(entries[x as int].0@, entries[order[p] as int].0@, entries[order[b - 1] as int].0@);
            }
            lemma_lex_transitive(entries[order[a] as int].0@, entries[x as int].0@, entries[order[b - 1] as int].0@);
        } else if a == p {
            assert(n[a] == x && n[b] == order[b - 1]);
            if p < b - 1 {
                lemma_lex_transitive(entries[x as int].0@, entries[order[p] as int].0@, entries[order[b - 1] as int].0@);
            }
        } else {
            assert(n[a] == order[a - 1] && n[b] == order[b - 1]);
        }
    }
}

/// True when position `j` occurs in `order`.
pub open spec fn occurs(order: Seq<usize>, j: int) -> bool {
    exists|k: int| 0 <= k < order.len() && #[trigger] order[k] == j
}

/// The positions of `entries`, sorted by name.
fn sorted_order(entries: &Vec<(String, Env)>) -> (order: Vec<usize>)
    requires
        distinct_keys(entries@),
    ensures
        sorted_listing(listing_in(entries@, order@), env_map(entries@)),
        forall|k: int| 0 <= k < order@.len() ==> #[trigger] order@[k] < entries@.len(),
{
    let mut order: Vec<usize> = Vec::new();
    let mut i: usize = 0;
    while i < entries.len()
        invariant
            i <= entries@.len(),
            distinct_keys(entries@),
            forall|k: int| 0 <= k < order@.len() ==> #[trigger] order@[k] < i,
            forall|j: int| 0 <= j < i ==> #[trigger] occurs(order@, j),
            forall|a: int, b: int|
                0 <= a < b < order@.len() ==> lex_lt(
                    #[trigger] entries@[order@[a] as int].0@,
                    #[trigger] entries@[order@[b] as int].0@,
                ),
        decreases entries@.len() - i,
    {
        let key = entries[i].0.as_str();
        let mut p: usize = 0;
        while p < order.len() && !key_less(key, entries[order[p]].0.as_str())
            invariant
                i < entries@.len(),
                key@ == entries@[i as int].0@,
                p <= order@.len(),
                forall|k: int| 0 <= k < order@.len() ==> #[trigger] order@[k] < i,
                forall|a: int| 0 <= a < p ==> !lex_lt(key@, #[trigger] entries@[order@[a] as int].0@),
            decreases order@.len() - p,
        {
            p = p + 1;
        }
        proof {
            assert forall|a: int| 0 <= a < p implies lex_lt(
                #[trigger] entries@[order@[a] as int].0@,
                entries@[i as int].0@,
            ) by {
                assert(order@[a] < i);
                assert(entries@[order@[a] as int].0@ != entries@[i as int].0@);
                lemma_lex_total(entries@[order@[a] as int].0@, entries@[i as int].0@);
            }
            lemma_insert_keeps_sorted(entries@, order@, p as int, i);
        }
        let ghost before = order@;
        order.insert(p, i);
        proof {
            assert forall|j: int| 0 <= j < i + 1 implies #[trigger] occurs(order@, j) by {
                if j == i {
                    assert(order@[p as int] == i);
                } else {
                    assert(occurs(before, j));
                    let k = choose|k: int| 0 <= k < before.len() && #[trigger] before[k] == j;
                    if k < p {
                        assert(order@[k] == j);
                    } else {
                        assert(order@[k + 1] == j);
                    }
                }
            }
            assert forall|k: int| 0 <= k < order@.len() implies #[trigger] order@[k] < i + 1 by {
                if k < p {
                    assert(order@[k] == before[k]);
                } else if k > p {
                    assert(order@[k] == before[k - 1]);
                }
            }
        }
        i = i + 1;
    }
    proof {
        let l = listing_in(entries@, order@);
        let m = env_map(entries@);
        assert forall|a: int, b: int| 0 <= a < b < l.len() implies lex_lt(#[trigger] l[a].0, #[trigger] l[b].0) by {
            assert(l[a].0 == entries@[order@[a] as int].0@);
            assert(l[b].0 == entries@[order@[b] as int].0@);
        }
        assert forall|k: int| 0 <= k < l.len() implies m.dom().contains(#[trigger] l[k].0) && m[l[k].0] == l[k].1 by {
            lemma_env_map_value(entries@, order@[k] as int);
        }
        assert forall|name: Seq<char>| #[trigger] m.dom().contains(name) implies exists|k: int|
            0 <= k < l.len() && (#[trigger] l[k]).0 == name by {
            lemma_env_map_dom(entries@, name);
            let j = choose|j: int| 0 <= j < entries@.len() && (#[trigger] entries@[j]).0@ == name;
            assert(occurs(order@, j));
            let k = choose|k: int| 0 <= k < order@.len() && #[trigger] order@[k] == j;
            assert(l[k].0 == name);
        }
    }
    order
}


impl Command {
    /// Compute a stable hash identifying this command's executable,
    /// arguments, environment, working directory, and input. Two commands
    /// with the same key are expected to produce the same output.
    pub fn get_cache_key(&self) -> (r: String)
        ensures
            r@ == cache_key(*self),
    {
        let mut h: Vec<HashItem> = Vec::new();
        assert(item_inputs(h@) =~= Seq::<HashInput>::empty());
        let entries = self.env.entries();
        let order = sorted_order(entries);
        let ghost listing = listing_in(entries@, order@);
        proof {
            lemma_sorted_listing_unique(listing, sorted_env(self.env@), self.env@);
        }
        let mut k: usize = 0;
        while k < order.len()
            invariant
                k <= order@.len(),
                listing == listing_in(entries@, order@),
                forall|x: int| 0 <= x < order@.len() ==> #[trigger] order@[x] < entries@.len(),
                item_inputs(h@) == env_list_inputs(listing.take(k as int)),
            decreases order@.len() - k,
        {
            let j = order[k];
            let (name, value) = &entries[j];
            write_text(&mut h, name.as_str());
            match value {
                Env::SetAlways(v) => {
                    push_item(&mut h, HashItem::Byte(1));
                    write_text(&mut h, v.as_str());
                },
                Env::SetIfMissing(v) => {
                    push_item(&mut h, HashItem::Byte(2));
                    write_text(&mut h, v.as_str());
                },
                Env::Unset => {
                    push_item(&mut h, HashItem::Byte(0));
                },
            }
            proof {
                assert(listing.take(k + 1).drop_last() =~= listing.take(k as int));
                assert(listing.take(k + 1).last() == listing[k as int]);
                assert(item_inputs(h@) =~= env_list_inputs(listing.take(k + 1)));
            }
            k = k + 1;
        }
        assert(listing.take(order@.len() as int) =~= listing);
        let ghost env_part = item_inputs(h@);
        write_text(&mut h, self.exe.as_os_str());
        let ghost exe_part = item_inputs(h@);
        let ghost values = arg_values(self.args@);
        let mut a: usize = 0;
        while a < self.args.len()
            invariant
                a <= self.args@.len(),
                values == arg_values(self.args@),
                item_inputs(h@) == exe_part + texts_inputs(values.take(a as int)),
            decreases self.args@.len() - a,
        {
            write_text(&mut h, self.args[a].value.as_str());
            proof {
                assert(values.take(a + 1).drop_last() =~= values.take(a as int));
                assert(values.take(a + 1).last() == self.args@[a as int].value@);
                assert(item_inputs(h@) =~= exe_part + texts_inputs(values.take(a + 1)));
            }
            a = a + 1;
        }
        assert(values.take(self.args@.len() as int) =~= values);
        let ghost args_part = item_inputs(h@);
        match &self.cwd {
            Some(dir) => write_text(&mut h, dir.as_str()),
            None => {},
        }
        let ghost cwd_part = item_inputs(h@);
        let ghost inputs = string_views(self.input@);
        let mut b: usize = 0;
        while b < self.input.len()
            invariant
                b <= self.input@.len(),
                inputs == string_views(self.input@),
                item_inputs(h@) == cwd_part + texts_inputs(inputs.take(b as int)),
            decreases self.input@.len() - b,
        {
            write_text(&mut h, self.input[b].as_str());
            proof {
                assert(inputs.take(b + 1).drop_last() =~= inputs.take(b as int));
                assert(inputs.take(b + 1).last() == self.input@[b as int]@);
                assert(item_inputs(h@) =~= cwd_part + texts_inputs(inputs.take(b + 1)));
            }
            b = b + 1;
        }
        assert(inputs.take(self.input@.len() as int) =~= inputs);
        assert(item_inputs(h@) =~= cache_key_inputs(*self));
        u64_to_decimal(fx_hash_items(&h))
    }
}


/// Two commands that agree on their environment variables (whatever order
/// they were set in), executable, raw arguments, working directory and
/// input get the same cache key, whatever else differs between them.
pub proof fn law_cache_key_identifies_by_content(c1: Command, c2: Command)
    requires
        c1.env@ == c2.env@,
        exe_text(c1.exe) == exe_text(c2.exe),
        arg_values(c1.args@) == arg_values(c2.args@),
        c1.cwd is Some <==> c2.cwd is Some,
        c1.cwd is Some ==> c1.cwd->0@ == c2.cwd->0@,
        string_views(c1.input@) == string_views(c2.input@),
    ensures
        cache_key_inputs(c1) == cache_key_inputs(c2),
        cache_key(c1) == cache_key(c2),
{
}

/// The cwd part of a command's hashed inputs.
spec fn cwd_inputs(c: Command) -> Seq<HashInput> {
    match c.cwd {
        Some(d) => text_inputs(d@),
        None => Seq::empty(),
    }
}

/// The working directory is part of the cache key: two commands that
/// agree on everything else but their working directory (one set and
/// one not, or two different ones) are hashed from different inputs, so
/// output cached for one directory is never keyed for the other.
pub proof fn law_cache_key_inputs_tell_cwd(c1: Command, c2: Command)
    requires
        c1.env@ == c2.env@,
        exe_text(c1.exe) == exe_text(c2.exe),
        arg_values(c1.args@) == arg_values(c2.args@),
        string_views(c1.input@) == string_views(c2.input@),
        cache_key_inputs(c1) == cache_key_inputs(c2),
    ensures
        c1.cwd is Some <==> c2.cwd is Some,
        c1.cwd is Some ==> c1.cwd->0@ == c2.cwd->0@,
{
    let p = env_list_inputs(sorted_env(c1.env@)) + text_inputs(exe_text(c1.exe)) + texts_inputs(arg_values(c1.args@));
    let q = texts_inputs(string_views(c1.input@));
    let x1 = cwd_inputs(c1);
    let x2 = cwd_inputs(c2);
    assert(cache_key_inputs(c1) == p + x1 + q);
    assert(cache_key_inputs(c2) == p + x2 + q);
    let all = cache_key_inputs(c1);
    assert(x1.len() == x2.len());
    assert(x1 =~= all.subrange(p.len() as int, (p.len() + x1.len()) as int));
    assert(x2 =~= all.subrange(p.len() as int, (p.len() + x2.len()) as int));
    if c1.cwd is Some {
        let d1 = c1.cwd->0@;
        let d2 = c2.cwd->0@;
        assert(x1[1] == HashInput::Bytes(encode_utf8(d1)));
        assert(x2[1] == HashInput::Bytes(encode_utf8(d2)));
        vstd::utf8::encode_utf8_decode_utf8(d1);
        vstd::utf8::encode_utf8_decode_utf8(d2);
    }
}

} // verus!
