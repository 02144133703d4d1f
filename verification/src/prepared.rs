//! Freezing what a registry run depends on, for its output cache key and
//! for the child itself: the full environment the child gets, and the
//! bytes written to its stdin.

use crate::command::{string_views, Command};
use crate::output_cache::{pair_views, CacheKey};
use crate::cache_key::lex_lt;
use crate::system_macro::{call_views, insert_call, names_sorted, sorted_insert};
use crate::text::{chars_of, str_eq};
use vstd::prelude::*;

verus! {

/// The test for entries not named `k`.
pub open spec fn named_other_than(k: Seq<char>) -> spec_fn((Seq<char>, Seq<char>)) -> bool {
    |e: (Seq<char>, Seq<char>)| e.0 != k
}

/// The test for entries not named `k`, ignoring ASCII case.
pub open spec fn named_other_than_ci(k: Seq<char>) -> spec_fn((Seq<char>, Seq<char>)) -> bool {
    |e: (Seq<char>, Seq<char>)| !eq_ignore_ascii_case(e.0, k)
}

/// `s` without the entry named `k`.
pub open spec fn sorted_remove(s: Seq<(Seq<char>, Seq<char>)>, k: Seq<char>) -> Seq<(Seq<char>, Seq<char>)> {
    s.filter(named_other_than(k))
}

/// The code of a character with ASCII letters lowered.
pub open spec fn ascii_lower(c: char) -> u32 {
    if 'A' <= c && c <= 'Z' {
        ((c as u32) + 32) as u32
    } else {
        c as u32
    }
}

/// True when `a` and `b` are equal ignoring ASCII case.
pub open spec fn eq_ignore_ascii_case(a: Seq<char>, b: Seq<char>) -> bool {
    a.len() == b.len() && forall|i: int| 0 <= i < a.len() ==> ascii_lower(#[trigger] a[i]) == ascii_lower(b[i])
}

/// `s` without the entries whose name equals `k` ignoring ASCII case.
pub open spec fn without_name_ci(s: Seq<(Seq<char>, Seq<char>)>, k: Seq<char>) -> Seq<(Seq<char>, Seq<char>)> {
    s.filter(named_other_than_ci(k))
}

/// The variables the parent process has, as a map ordered by name (a
/// later duplicate wins).
pub open spec fn host_map(host: Seq<(Seq<char>, Seq<char>)>) -> Seq<(Seq<char>, Seq<char>)>
    decreases host.len(),
{
    if host.len() == 0 {
        Seq::empty()
    } else {
        sorted_insert(host_map(host.drop_last()), host.last().0, host.last().1)
    }
}

/// The environment after applying the command's directives in order: a
/// value sets the variable, none removes it. On Windows, where names are
/// not case sensitive, a directive first drops every variable whose name
/// differs from its own only in ASCII case.
pub open spec fn frozen_env(
    host: Seq<(Seq<char>, Seq<char>)>,
    directives: Seq<(Seq<char>, Option<Seq<char>>)>,
    windows: bool,
) -> Seq<(Seq<char>, Seq<char>)>
    decreases directives.len(),
{
    if directives.len() == 0 {
        host_map(host)
    } else {
        let before = frozen_env(host, directives.drop_last(), windows);
        let (k, v) = directives.last();
        let cleared = if windows {
            without_name_ci(before, k)
        } else {
            before
        };
        match v {
            Some(value) => sorted_insert(cleared, k, value),
            None => sorted_remove(cleared, k),
        }
    }
}

fn lower(c: char) -> (r: u32)
    ensures
        r == ascii_lower(c),
{
    if 'A' <= c && c <= 'Z' {
        (c as u32) + 32
    } else {
        c as u32
    }
}

/// Returns true if `a` and `b` are equal ignoring ASCII case.
pub fn equal_ignoring_ascii_case(a: &str, b: &str) -> (r: bool)
    ensures
        r == eq_ignore_ascii_case(a@, b@),
{
    let x = chars_of(a);
    let y = chars_of(b);
    if x.len() != y.len() {
        return false;
    }
    let mut i: usize = 0;
    while i < x.len()
        invariant
            x@ == a@,
            y@ == b@,
            x@.len() == y@.len(),
            i <= x@.len(),
            forall|k: int| 0 <= k < i ==> ascii_lower(#[trigger] x@[k]) == ascii_lower(y@[k]),
        decreases x@.len() - i,
    {
        if lower(x[i]) != lower(y[i]) {
            return false;
        }
        i = i + 1;
    }
    true
}

fn filter_names(env: Vec<(String, String)>, name: &str, ignore_case: bool) -> (r: Vec<(String, String)>)
    ensures
        ignore_case ==> call_views(r@) == without_name_ci(call_views(env@), name@),
        !ignore_case ==> call_views(r@) == sorted_remove(call_views(env@), name@),
{
    let ghost all = call_views(env@);
    let ghost p = if ignore_case {
        named_other_than_ci(name@)
    } else {
        named_other_than(name@)
    };
    let mut kept: Vec<(String, String)> = Vec::new();
    let mut i: usize = 0;
    while i < env.len()
        invariant
            i <= env@.len(),
            all == call_views(env@),
            call_views(kept@) == all.take(i as int).filter(p),
            p == (if ignore_case {
                named_other_than_ci(name@)
            } else {
                named_other_than(name@)
            }),
        decreases env@.len() - i,
    {
        assert(all.take(i + 1).drop_last() =~= all.take(i as int));
        assert(all.take(i + 1).last() == all[i as int]);
        reveal(Seq::filter);
        let drop = if ignore_case {
            equal_ignoring_ascii_case(env[i].0.as_str(), name)
        } else {
            str_eq(env[i].0.as_str(), name)
        };
        if !drop {
            let ghost before = call_views(kept@);
            kept.push((env[i].0.clone(), env[i].1.clone()));
            assert(call_views(kept@) =~= before.push(all[i as int]));
        }
        i = i + 1;
    }
    assert(all.take(env@.len() as int) =~= all);
    kept
}

/// The views of directives.
pub open spec fn directive_views(d: Seq<(String, Option<String>)>) -> Seq<(Seq<char>, Option<Seq<char>>)> {
    d.map_values(
        |e: (String, Option<String>)|
            (
                e.0@,
                match e.1 {
                    Some(v) => Some(v@),
                    None => None,
                },
            ),
    )
}

/// Freeze the environment a child gets: the parent's variables, then the
/// command's directives in order (see [`frozen_env`]), ordered by name.
pub fn freeze_env(host: &Vec<(String, String)>, directives: &Vec<(String, Option<String>)>, windows: bool) -> (r: Vec<(String, String)>)
    ensures
        call_views(r@) == frozen_env(call_views(host@), directive_views(directives@), windows),
{
    let ghost hv = call_views(host@);
    let ghost dv = directive_views(directives@);
    let mut env: Vec<(String, String)> = Vec::new();
    let mut i: usize = 0;
    assert(call_views(env@) =~= host_map(hv.take(0)));
    while i < host.len()
        invariant
            i <= host@.len(),
            hv == call_views(host@),
            call_views(env@) == host_map(hv.take(i as int)),
        decreases host@.len() - i,
    {
        assert(hv.take(i + 1).drop_last() =~= hv.take(i as int));
        assert(hv.take(i + 1).last() == hv[i as int]);
        insert_call(&mut env, host[i].0.as_str(), host[i].1.as_str());
        i = i + 1;
    }
    assert(hv.take(host@.len() as int) =~= hv);
    let mut j: usize = 0;
    assert(dv.take(0) =~= Seq::<(Seq<char>, Option<Seq<char>>)>::empty());
    while j < directives.len()
        invariant
            j <= directives@.len(),
            hv == call_views(host@),
            dv == directive_views(directives@),
            call_views(env@) == frozen_env(hv, dv.take(j as int), windows),
        decreases directives@.len() - j,
    {
        assert(dv.take(j + 1).drop_last() =~= dv.take(j as int));
        assert(dv.take(j + 1).last() == dv[j as int]);
        let name = directives[j].0.as_str();
        if windows {
            env = filter_names(env, name, true);
        }
        match &directives[j].1 {
            Some(value) => insert_call(&mut env, name, value.as_str()),
            None => {
                env = filter_names(env, name, false);
            },
        }
        j = j + 1;
    }
    assert(dv.take(directives@.len() as int) =~= dv);
    env
}

/// The bytes of each item, one after the other.
pub open spec fn concat_bytes(items: Seq<String>) -> Seq<u8>
    decreases items.len(),
{
    if items.len() == 0 {
        Seq::empty()
    } else {
        concat_bytes(items.drop_last()) + vstd::utf8::encode_utf8(items.last()@)
    }
}

/// The bytes of the items joined with single spaces.
pub open spec fn joined_bytes(items: Seq<String>) -> Seq<u8>
    decreases items.len(),
{
    if items.len() == 0 {
        Seq::empty()
    } else if items.len() == 1 {
        vstd::utf8::encode_utf8(items[0]@)
    } else {
        joined_bytes(items.drop_last()) + seq![32u8] + vstd::utf8::encode_utf8(items.last()@)
    }
}

fn push_bytes(out: &mut Vec<u8>, s: &str)
    ensures
        final(out)@ == old(out)@ + vstd::utf8::encode_utf8(s@),
{
    let bytes = s.as_bytes();
    let mut i: usize = 0;
    let ghost start = out@;
    while i < bytes.len()
        invariant
            i <= bytes@.len(),
            bytes@ == vstd::utf8::encode_utf8(s@),
            out@ == start + bytes@.take(i as int),
        decreases bytes@.len() - i,
    {
        out.push(bytes[i]);
        assert(bytes@.take(i + 1) =~= bytes@.take(i as int).push(bytes@[i as int]));
        i = i + 1;
    }
    assert(bytes@.take(bytes@.len() as int) =~= bytes@);
}

impl Command {
    /// The bytes written to the child's stdin: with a continuous pipe each
    /// input item as is, one after the other; otherwise the items joined
    /// with spaces.
    pub fn frozen_input(&self) -> (r: Vec<u8>)
        ensures
            self.continuous_pipe ==> r@ == concat_bytes(self.input@),
            !self.continuous_pipe ==> r@ == joined_bytes(self.input@),
    {
        let mut out: Vec<u8> = Vec::new();
        let mut i: usize = 0;
        assert(self.input@.take(0) =~= Seq::<String>::empty());
        while i < self.input.len()
            invariant
                i <= self.input@.len(),
                self.continuous_pipe ==> out@ == concat_bytes(self.input@.take(i as int)),
                !self.continuous_pipe ==> out@ == joined_bytes(self.input@.take(i as int)),
            decreases self.input@.len() - i,
        {
            assert(self.input@.take(i + 1).drop_last() =~= self.input@.take(i as int));
            assert(self.input@.take(i + 1).last() == self.input@[i as int]);
            if !self.continuous_pipe && i > 0 {
                out.push(32u8);
            }
            push_bytes(&mut out, self.input[i].as_str());
            proof {
                if !self.continuous_pipe && i == 0 {
                    assert(self.input@.take(1)[0] == self.input@[0]);
                }
            }
            i = i + 1;
        }
        assert(self.input@.take(self.input@.len() as int) =~= self.input@);
        out
    }
}


proof fn lemma_insert_keys(s: Seq<(Seq<char>, Seq<char>)>, k: Seq<char>, v: Seq<char>, i: int)
    requires
        0 <= i < sorted_insert(s, k, v).len(),
    ensures
        sorted_insert(s, k, v)[i].0 == k || exists|j: int| 0 <= j < s.len() && s[j].0 == sorted_insert(s, k, v)[i].0,
    decreases s.len(),
{
    let t = sorted_insert(s, k, v);
    if s.len() == 0 {
    } else if s[0].0 == k {
        if i > 0 {
            assert(t[i] == s[i]);
        }
    } else if lex_lt(k, s[0].0) {
        if i > 0 {
            assert(t[i] == s[i - 1]);
        }
    } else {
        if i == 0 {
            assert(t[0] == s[0]);
        } else {
            lemma_insert_keys(s.drop_first(), k, v, i - 1);
            assert(t[i] == sorted_insert(s.drop_first(), k, v)[i - 1]);
            if sorted_insert(s.drop_first(), k, v)[i - 1].0 != k {
                let j = choose|j: int| 0 <= j < s.drop_first().len() && s.drop_first()[j].0 == sorted_insert(s.drop_first(), k, v)[i - 1].0;
                assert(s[j + 1] == s.drop_first()[j]);
            }
        }
    }
}

proof fn lemma_insert_sorted(s: Seq<(Seq<char>, Seq<char>)>, k: Seq<char>, v: Seq<char>)
    requires
        names_sorted(s),
    ensures
        names_sorted(sorted_insert(s, k, v)),
    decreases s.len(),
{
    let t = sorted_insert(s, k, v);
    if s.len() == 0 {
    } else if s[0].0 == k {
        assert forall|a: int, b: int| 0 <= a < b < t.len() implies lex_lt(#[trigger] t[a].0, #[trigger] t[b].0) by {
            assert(t[b] == s[b]);
            if a > 0 {
                assert(t[a] == s[a]);
            }
        }
    } else if lex_lt(k, s[0].0) {
        assert forall|a: int, b: int| 0 <= a < b < t.len() implies lex_lt(#[trigger] t[a].0, #[trigger] t[b].0) by {
            assert(t[b] == s[b - 1]);
            if a > 0 {
                assert(t[a] == s[a - 1]);
            } else if b > 1 {
                crate::cache_key::lemma_lex_transitive(k, s[0].0, s[b - 1].0);
            }
        }
    } else {
        crate::cache_key::lemma_lex_total(s[0].0, k);
        let r = s.drop_first();
        assert(names_sorted(r)) by {
            assert forall|a: int, b: int| 0 <= a < b < r.len() implies lex_lt(#[trigger] r[a].0, #[trigger] r[b].0) by {
                assert(r[a] == s[a + 1] && r[b] == s[b + 1]);
            }
        }
        lemma_insert_sorted(r, k, v);
        let u = sorted_insert(r, k, v);
        assert forall|a: int, b: int| 0 <= a < b < t.len() implies lex_lt(#[trigger] t[a].0, #[trigger] t[b].0) by {
            assert(t[b] == u[b - 1]);
            if a > 0 {
                assert(t[a] == u[a - 1]);
            } else {
                assert(t[0] == s[0]);
                lemma_insert_keys(r, k, v, b - 1);
                if u[b - 1].0 != k {
                    let j = choose|j: int| 0 <= j < r.len() && r[j].0 == u[b - 1].0;
                    assert(r[j] == s[j + 1]);
                }
            }
        }
    }
}

proof fn lemma_filter_sorted(s: Seq<(Seq<char>, Seq<char>)>, p: spec_fn((Seq<char>, Seq<char>)) -> bool)
    requires
        names_sorted(s),
    ensures
        names_sorted(s.filter(p)),
        forall|i: int| 0 <= i < s.filter(p).len() ==> exists|j: int| 0 <= j < s.len() && s[j] == #[trigger] s.filter(p)[i],
    decreases s.len(),
{
    reveal(Seq::filter);
    if s.len() > 0 {
        let d = s.drop_last();
        assert(names_sorted(d)) by {
            assert forall|a: int, b: int| 0 <= a < b < d.len() implies lex_lt(#[trigger] d[a].0, #[trigger] d[b].0) by {
                assert(d[a] == s[a] && d[b] == s[b]);
            }
        }
        lemma_filter_sorted(d, p);
        let f = d.filter(p);
        let g = s.filter(p);
        assert forall|i: int| 0 <= i < g.len() implies exists|j: int| 0 <= j < s.len() && s[j] == #[trigger] g[i] by {
            if i < f.len() {
                let j = choose|j: int| 0 <= j < d.len() && d[j] == #[trigger] f[i];
                assert(s[j] == g[i]);
            } else {
                assert(s[s.len() - 1] == g[i]);
            }
        }
        if p(s.last()) {
            assert forall|a: int, b: int| 0 <= a < b < g.len() implies lex_lt(#[trigger] g[a].0, #[trigger] g[b].0) by {
                if b == g.len() - 1 {
                    let j = choose|j: int| 0 <= j < d.len() && d[j] == #[trigger] f[a];
                    assert(g[a] == f[a]);
                    assert(s[j] == d[j]);
                    assert(g[b] == s[s.len() - 1]);
                } else {
                    assert(g[a] == f[a] && g[b] == f[b]);
                }
            }
        }
    }
}

proof fn lemma_host_sorted(host: Seq<(Seq<char>, Seq<char>)>)
    ensures
        names_sorted(host_map(host)),
    decreases host.len(),
{
    if host.len() > 0 {
        lemma_host_sorted(host.drop_last());
        lemma_insert_sorted(host_map(host.drop_last()), host.last().0, host.last().1);
    }
}

/// The frozen environment is ordered by name, and names each variable
/// once, whatever the parent's variables and the directives: the cache
/// key built from it does not depend on the order they came in.
pub proof fn law_frozen_env_is_ordered(
    host: Seq<(Seq<char>, Seq<char>)>,
    directives: Seq<(Seq<char>, Option<Seq<char>>)>,
    windows: bool,
)
    ensures
        names_sorted(frozen_env(host, directives, windows)),
    decreases directives.len(),
{
    if directives.len() == 0 {
        lemma_host_sorted(host);
    } else {
        law_frozen_env_is_ordered(host, directives.drop_last(), windows);
        let before = frozen_env(host, directives.drop_last(), windows);
        let (k, v) = directives.last();
        lemma_filter_sorted(before, named_other_than_ci(k));
        let cleared = if windows {
            without_name_ci(before, k)
        } else {
            before
        };
        match v {
            Some(value) => lemma_insert_sorted(cleared, k, value),
            None => lemma_filter_sorted(cleared, named_other_than(k)),
        }
    }
}

/// What `Path::join` gives for `path` under `base`.
pub uninterp spec fn path_joined(base: Seq<char>, path: Seq<char>) -> Seq<char>;

/// Joins `path` onto `base` with `std::path::Path::join` (an absolute
/// `path` replaces `base`); the contract names the result.
#[verifier::external_body]
fn join_path(base: &str, path: &str) -> (r: String)
    ensures
        r@ == path_joined(base@, path@),
{
    std::path::Path::new(base).join(path).to_string_lossy().into_owned()
}

/// A command frozen for a registry run: the key its output is cached
/// under, and the environment, working directory and input the child
/// runs with.
#[derive(Debug)]
pub struct PreparedRun {
    /// The output cache key.
    pub key: CacheKey,
    /// The whole environment the child runs with.
    pub env: Vec<(String, String)>,
    /// The working directory the child runs in.
    pub cwd: String,
    /// The bytes written to the child's stdin.
    pub input: Vec<u8>,
}

/// The working directory a registry run uses: the command's, joined onto
/// the current one, or the current one.
pub open spec fn run_cwd(c: Command, current_dir: Seq<char>) -> Seq<char> {
    match c.cwd {
        Some(d) => path_joined(current_dir, d@),
        None => current_dir,
    }
}

impl Command {
    /// Freeze this command for a registry run, given the program and
    /// arguments of the process built for it, the current directory, the
    /// parent's environment and the environment directives of that process.
    /// The key holds that program and those arguments, the working
    /// directory ([`run_cwd`]), the frozen environment ([`frozen_env`]) and
    /// the input ([`Command::frozen_input`]); the child runs with the same
    /// environment, directory and input.
    pub fn prepare_run(
        &self,
        program: String,
        args: Vec<String>,
        current_dir: &str,
        host: &Vec<(String, String)>,
        directives: &Vec<(String, Option<String>)>,
        windows: bool,
    ) -> (r: PreparedRun)
        ensures
            r.key@.program == program@,
            r.key@.args == string_views(args@),
            r.key@.cwd == run_cwd(*self, current_dir@),
            r.key@.env == frozen_env(call_views(host@), directive_views(directives@), windows),
            self.continuous_pipe ==> r.key@.input == concat_bytes(self.input@),
            !self.continuous_pipe ==> r.key@.input == joined_bytes(self.input@),
            call_views(r.env@) == r.key@.env,
            r.cwd@ == r.key@.cwd,
            r.input@ == r.key@.input,
    {
        let cwd = match &self.cwd {
            Some(dir) => join_path(current_dir, dir.as_str()),
            None => current_dir.to_owned(),
        };
        let key_env = freeze_env(host, directives, windows);
        let env = freeze_env(host, directives, windows);
        let key_input = self.frozen_input();
        let input = self.frozen_input();
        let key_cwd = cwd.clone();
        proof {
            assert(pair_views(key_env@) =~= call_views(key_env@));
        }
        PreparedRun { key: CacheKey { program, args, cwd: key_cwd, env: key_env, input: key_input }, env, cwd, input }
    }
}

} // verus!
