//! Best effort enumeration of process trees: parsing the process tables
//! that the platforms report, and walking a parent to children lookup.

use crate::text::{chars_of, is_white_space, is_whitespace, trim_start_by, whitespace_pred};
use vstd::prelude::*;

verus! {

/// The value of a string of ASCII decimal digits.
pub open spec fn digits_value(s: Seq<char>) -> nat
    decreases s.len(),
{
    if s.len() == 0 {
        0
    } else {
        digits_value(s.drop_last()) * 10 + ((s.last() as nat) - 48) as nat
    }
}

/// True when every character of `s` is an ASCII decimal digit.
pub open spec fn all_digits(s: Seq<char>) -> bool {
    forall|i: int| 0 <= i < s.len() ==> '0' <= #[trigger] s[i] && s[i] <= '9'
}

/// What `str::parse::<u32>` returns for `s`: an optional `+`, then at
/// least one ASCII digit, of a value that fits in `u32`.
pub open spec fn parsed_u32(s: Seq<char>) -> Option<u32> {
    let d = if s.len() > 0 && s[0] == '+' {
        s.drop_first()
    } else {
        s
    };
    if d.len() > 0 && all_digits(d) && digits_value(d) <= u32::MAX {
        Some(digits_value(d) as u32)
    } else {
        None
    }
}

proof fn lemma_digits_value_grows(s: Seq<char>, i: int)
    requires
        0 <= i <= s.len(),
        all_digits(s),
    ensures
        digits_value(s) >= digits_value(s.take(i)),
    decreases s.len() - i,
{
    if i < s.len() {
        lemma_digits_value_grows(s, i + 1);
        assert(s.take(i + 1).drop_last() =~= s.take(i));
        assert('0' <= s[i] && s[i] <= '9');
    } else {
        assert(s.take(i) =~= s);
    }
}

/// Parse a decimal `u32` as `str::parse::<u32>` does.
pub fn parse_u32(s: &[char]) -> (r: Option<u32>)
    ensures
        r == parsed_u32(s@),
{
    let n = s.len();
    let start: usize = if n > 0 && s[0] == '+' {
        1
    } else {
        0
    };
    let ghost d = if s@.len() > 0 && s@[0] == '+' {
        s@.drop_first()
    } else {
        s@
    };
    assert(d =~= s@.skip(start as int));
    if start == n {
        assert(d.len() == 0);
        return None;
    }
    let mut value: u64 = 0;
    let mut i = start;
    assert(d.take(0) =~= Seq::<char>::empty());
    while i < n
        invariant
            start <= i <= n == s@.len(),
            d == s@.skip(start as int),
            d == (if s@.len() > 0 && s@[0] == '+' {
                s@.drop_first()
            } else {
                s@
            }),
            all_digits(d.take(i - start)),
            value == digits_value(d.take(i - start)),
            value <= u32::MAX,
        decreases n - i,
    {
        let c = s[i];
        if !('0' <= c && c <= '9') {
            assert(d[i - start] == c);
            assert(!all_digits(d)) by {
                assert(!('0' <= d[i - start] && d[i - start] <= '9'));
            }
            return None;
        }
        let digit: u64 = (c as u64) - 48;
        proof {
            assert(d.take(i - start + 1).drop_last() =~= d.take(i - start));
            assert(d.take(i - start + 1).last() == c);
        }
        value = value * 10 + digit;
        proof {
            assert forall|k: int| 0 <= k < d.take(i - start + 1).len() implies '0' <= #[trigger] d.take(
                i - start + 1,
            )[k] && d.take(i - start + 1)[k] <= '9' by {
                if k < i - start {
                    assert(d.take(i - start + 1)[k] == d.take(i - start)[k]);
                }
            }
        }
        if value > 0xffff_ffff {
            proof {
                if all_digits(d) {
                    lemma_digits_value_grows(d, i - start + 1);
                }
            }
            return None;
        }
        i = i + 1;
    }
    assert(d.take(n - start) =~= d);
    Some(value as u32)
}

/// The number of leading characters of `s` that are not whitespace.
pub open spec fn token_len(s: Seq<char>) -> nat
    decreases s.len(),
{
    if s.len() == 0 || is_white_space(s[0]) {
        0
    } else {
        1 + token_len(s.drop_first())
    }
}

/// The first whitespace-separated token of `s` and what follows it, as
/// `str::split_whitespace` yields them.
pub open spec fn next_token(s: Seq<char>) -> Option<(Seq<char>, Seq<char>)> {
    let t = trim_start_by(s, whitespace_pred());
    if t.len() == 0 {
        None
    } else {
        Some((t.take(token_len(t) as int), t.skip(token_len(t) as int)))
    }
}

/// The `n`th (from zero) whitespace-separated token of `s`.
pub open spec fn nth_token(s: Seq<char>, n: nat) -> Option<Seq<char>>
    decreases n,
{
    match next_token(s) {
        None => None,
        Some((token, rest)) => if n == 0 {
            Some(token)
        } else {
            nth_token(rest, (n - 1) as nat)
        },
    }
}

proof fn lemma_trim_start_shorter(s: Seq<char>, p: spec_fn(char) -> bool)
    ensures
        trim_start_by(s, p).len() <= s.len(),
        exists|k: int| 0 <= k <= s.len() && trim_start_by(s, p) == s.skip(k),
    decreases s.len(),
{
    if s.len() > 0 && p(s[0]) {
        lemma_trim_start_shorter(s.drop_first(), p);
        let k = choose|k: int| 0 <= k <= s.drop_first().len() && trim_start_by(s.drop_first(), p) == s.drop_first().skip(k);
        assert(s.drop_first().skip(k) =~= s.skip(k + 1));
    } else {
        assert(s.skip(0) =~= s);
    }
}

proof fn lemma_token_len_bound(s: Seq<char>)
    ensures
        token_len(s) <= s.len(),
        forall|k: int| 0 <= k < token_len(s) ==> !is_white_space(#[trigger] s[k]),
        token_len(s) < s.len() ==> is_white_space(s[token_len(s) as int]),
    decreases s.len(),
{
    if s.len() > 0 && !is_white_space(s[0]) {
        lemma_token_len_bound(s.drop_first());
        assert forall|k: int| 0 <= k < token_len(s) implies !is_white_space(#[trigger] s[k]) by {
            if k > 0 {
                assert(s[k] == s.drop_first()[k - 1]);
            }
        }
    }
}

/// Find the first token at or after `from` in `s`: returns its start and
/// end, with `start == end == s.len()` when there is none.
fn next_token_at(s: &Vec<char>, from: usize) -> (r: (usize, usize))
    requires
        from <= s@.len(),
    ensures
        from <= r.0 <= r.1 <= s@.len(),
        match next_token(s@.skip(from as int)) {
            None => r.0 == s@.len(),
            Some((token, rest)) => r.0 < s@.len() && token == s@.subrange(r.0 as int, r.1 as int)
                && rest == s@.skip(r.1 as int),
        },
{
    let n = s.len();
    let mut i = from;
    assert(s@.skip(from as int) =~= s@.skip(i as int));
    while i < n && is_whitespace(s[i])
        invariant
            from <= i <= n == s@.len(),
            trim_start_by(s@.skip(from as int), whitespace_pred()) == trim_start_by(
                s@.skip(i as int),
                whitespace_pred(),
            ),
        decreases n - i,
    {
        assert(s@.skip(i as int).drop_first() =~= s@.skip(i + 1));
        i = i + 1;
    }
    let ghost t = s@.skip(i as int);
    assert(trim_start_by(t, whitespace_pred()) == t) by {
        if t.len() > 0 {
            assert(t[0] == s@[i as int]);
        }
    }
    if i == n {
        return (n, n);
    }
    let mut j = i;
    while j < n && !is_whitespace(s[j])
        invariant
            i <= j <= n == s@.len(),
            t == s@.skip(i as int),
            token_len(t) == (j - i) + token_len(s@.skip(j as int)),
        decreases n - j,
    {
        assert(s@.skip(j as int).drop_first() =~= s@.skip(j + 1));
        j = j + 1;
    }
    proof {
        if j < n {
            assert(s@.skip(j as int)[0] == s@[j as int]);
        }
        assert(t.take(j - i) =~= s@.subrange(i as int, j as int));
        assert(t.skip(j - i) =~= s@.skip(j as int));
    }
    (i, j)
}

/// What follows the last `c` in `s` (`str::rsplit_once`), or `None`
/// when `s` holds no `c`.
pub open spec fn after_last(s: Seq<char>, c: char) -> Option<Seq<char>>
    decreases s.len(),
{
    if s.len() == 0 {
        None
    } else if s.last() == c {
        Some(Seq::empty())
    } else {
        match after_last(s.drop_last(), c) {
            Some(rest) => Some(rest.push(s.last())),
            None => None,
        }
    }
}

/// The parent pid a Linux `/proc/<pid>/stat` line holds: the second field
/// after the command name, which may itself contain spaces and
/// parentheses, so the line is split on its last `)`.
pub open spec fn stat_parent(stat: Seq<char>) -> Option<u32> {
    match after_last(stat, ')') {
        None => None,
        Some(rest) => match nth_token(rest, 1) {
            None => None,
            Some(field) => parsed_u32(field),
        },
    }
}

/// Return the parent pid held by a `/proc/<pid>/stat` line (`pid (comm)
/// state ppid ...`).
pub fn parse_stat_parent(stat: &str) -> (r: Option<u32>)
    ensures
        r == stat_parent(stat@),
{
    let s = chars_of(stat);
    let n = s.len();
    let mut k = n;
    assert(s@.skip(n as int) =~= Seq::<char>::empty());
    assert(s@.take(n as int) =~= s@);
    while k > 0 && s[k - 1] != ')'
        invariant
            k <= n == s@.len(),
            s@ == stat@,
            after_last(stat@, ')') == match after_last(s@.take(k as int), ')') {
                Some(rest) => Some(rest + s@.skip(k as int)),
                None => None,
            },
        decreases k,
    {
        proof {
            let pre = s@.take(k as int);
            assert(pre.drop_last() =~= s@.take(k - 1));
            assert(pre.last() == s@[k - 1]);
            assert(s@.skip(k - 1) =~= seq![s@[k - 1]] + s@.skip(k as int));
            match after_last(s@.take(k - 1), ')') {
                Some(rest) => {
                    assert(rest.push(s@[k - 1]) + s@.skip(k as int) =~= rest + s@.skip(k - 1));
                },
                None => {},
            }
        }
        k = k - 1;
    }
    if k == 0 {
        assert(s@.take(0) =~= Seq::<char>::empty());
        return None;
    }
    proof {
        assert(s@.take(k as int).last() == ')');
        assert(Seq::<char>::empty() + s@.skip(k as int) =~= s@.skip(k as int));
    }
    let ghost rest = s@.skip(k as int);
    let first = next_token_at(&s, k);
    if first.0 == n {
        assert(next_token(rest) is None);
        return None;
    }
    let second = next_token_at(&s, first.1);
    if second.0 == n {
        assert(nth_token(s@.skip(first.1 as int), 0) is None);
        return None;
    }
    let field = string_slice(&s, second.0, second.1);
    assert(nth_token(rest, 1) == Some(field@));
    parse_u32(field.as_slice())
}

fn string_slice(s: &Vec<char>, from: usize, to: usize) -> (r: Vec<char>)
    requires
        from <= to <= s@.len(),
    ensures
        r@ == s@.subrange(from as int, to as int),
{
    let mut r: Vec<char> = Vec::new();
    let mut k = from;
    while k < to
        invariant
            from <= k <= to <= s@.len(),
            r@ == s@.subrange(from as int, k as int),
        decreases to - k,
    {
        r.push(s[k]);
        assert(s@.subrange(from as int, k + 1) =~= s@.subrange(from as int, k as int).push(s@[k as int]));
        k = k + 1;
    }
    r
}

/// The `(pid, ppid)` pair a `ps -o pid=,ppid=` line holds: its first two
/// whitespace-separated fields, both decimal.
pub open spec fn ps_line_pair(line: Seq<char>) -> Option<(u32, u32)> {
    match (nth_token(line, 0), nth_token(line, 1)) {
        (Some(a), Some(b)) => match (parsed_u32(a), parsed_u32(b)) {
            (Some(pid), Some(ppid)) => Some((pid, ppid)),
            _ => None,
        },
        _ => None,
    }
}

/// Return the `(pid, ppid)` pair of one line of `ps -A -o pid=,ppid=`.
pub fn parse_ps_line(line: &Vec<char>) -> (r: Option<(u32, u32)>)
    ensures
        r == ps_line_pair(line@),
{
    let n = line.len();
    assert(line@.skip(0) =~= line@);
    let first = next_token_at(line, 0);
    if first.0 == n {
        assert(nth_token(line@, 0) is None);
        return None;
    }
    let second = next_token_at(line, first.1);
    if second.0 == n {
        assert(nth_token(line@.skip(first.1 as int), 0) is None);
        assert(nth_token(line@, 1) is None);
        return None;
    }
    let a = string_slice(line, first.0, first.1);
    let b = string_slice(line, second.0, second.1);
    assert(nth_token(line@, 0) == Some(a@));
    assert(nth_token(line@, 1) == Some(b@));
    match parse_u32(a.as_slice()) {
        Some(pid) => match parse_u32(b.as_slice()) {
            Some(ppid) => Some((pid, ppid)),
            None => None,
        },
        None => None,
    }
}

/// The number of characters of `s` before its first newline (its length
/// when it has none).
pub open spec fn char_newline_pos(s: Seq<char>) -> nat
    decreases s.len(),
{
    if s.len() == 0 || s[0] == '\n' {
        0
    } else {
        1 + char_newline_pos(s.drop_first())
    }
}

/// A line without the carriage return of a `\r\n` ending.
pub open spec fn strip_cr(line: Seq<char>) -> Seq<char> {
    if line.len() > 0 && line.last() == '\r' {
        line.drop_last()
    } else {
        line
    }
}

/// The lines of `s`, as `str::lines` yields them: split after each
/// newline, without the `\n` or `\r\n` terminator, the final terminator
/// being optional.
pub open spec fn text_lines(s: Seq<char>) -> Seq<Seq<char>>
    decreases s.len(),
{
    if s.len() == 0 {
        seq![]
    } else {
        let p = char_newline_pos(s) as int;
        if p >= s.len() {
            seq![s]
        } else {
            seq![strip_cr(s.take(p))] + text_lines(s.skip(p + 1))
        }
    }
}

/// The pairs that the lines of a `ps` listing hold, lines without one
/// skipped.
pub open spec fn ps_pairs(lines: Seq<Seq<char>>) -> Seq<(u32, u32)>
    decreases lines.len(),
{
    if lines.len() == 0 {
        seq![]
    } else {
        let rest = ps_pairs(lines.drop_last());
        match ps_line_pair(lines.last()) {
            Some(pair) => rest.push(pair),
            None => rest,
        }
    }
}

proof fn lemma_char_newline_step(s: Seq<char>, j: int)
    requires
        0 <= j < s.len(),
        s[j] != '\n',
    ensures
        char_newline_pos(s.skip(j)) == 1 + char_newline_pos(s.skip(j + 1)),
{
    assert(s.skip(j).drop_first() =~= s.skip(j + 1));
}

proof fn lemma_ps_pairs_push(lines: Seq<Seq<char>>, line: Seq<char>)
    ensures
        ps_pairs(lines.push(line)) == match ps_line_pair(line) {
            Some(pair) => ps_pairs(lines).push(pair),
            None => ps_pairs(lines),
        },
{
    assert(lines.push(line).drop_last() =~= lines);
}

/// Return the `(pid, ppid)` pairs listed by `ps -A -o pid=,ppid=`, whose
/// output is given decoded.
pub fn parse_ps_output(text: &str) -> (r: Vec<(u32, u32)>)
    ensures
        r@ == ps_pairs(text_lines(text@)),
{
    let s = chars_of(text);
    let n = s.len();
    let mut pairs: Vec<(u32, u32)> = Vec::new();
    let ghost mut done: Seq<Seq<char>> = seq![];
    let mut start: usize = 0;
    assert(s@.skip(0) =~= s@);
    while start < n
        invariant
            n == s@.len(),
            s@ == text@,
            start <= n,
            text_lines(s@) == done + text_lines(s@.skip(start as int)),
            pairs@ == ps_pairs(done),
        decreases n - start,
    {
        let ghost rest = s@.skip(start as int);
        let mut j = start;
        assert(rest =~= s@.skip(j as int));
        while j < n && s[j] != '\n'
            invariant
                start <= j <= n == s@.len(),
                rest == s@.skip(start as int),
                char_newline_pos(rest) == (j - start) + char_newline_pos(s@.skip(j as int)),
            decreases n - j,
        {
            proof {
                lemma_char_newline_step(s@, j as int);
            }
            j = j + 1;
        }
        let end: usize = if j > start && s[j - 1] == '\r' && j < n {
            j - 1
        } else {
            j
        };
        let line = string_slice(&s, start, end);
        proof {
            if j < n {
                assert(s@.skip(j as int)[0] == s@[j as int]);
                assert(char_newline_pos(s@.skip(j as int)) == 0);
                assert(rest.take(j - start) =~= s@.subrange(start as int, j as int));
                assert(strip_cr(rest.take(j - start)) =~= line@);
                assert(rest.skip(j - start + 1) =~= s@.skip(j + 1));
                assert(text_lines(rest) == seq![line@] + text_lines(s@.skip(j + 1)));
            } else {
                assert(s@.skip(n as int) =~= Seq::<char>::empty());
                assert(rest =~= line@);
                assert(text_lines(rest) == seq![line@]);
            }
            lemma_ps_pairs_push(done, line@);
        }
        match parse_ps_line(&line) {
            Some(pair) => pairs.push(pair),
            None => {},
        }
        proof {
            done = done.push(line@);
            if j < n {
                assert(done.drop_last() + seq![line@] =~= done);
            }
        }
        start = if j < n {
            j + 1
        } else {
            n
        };
        proof {
            if start == n {
                assert(s@.skip(n as int) =~= Seq::<char>::empty());
            }
            assert(text_lines(s@) == done + text_lines(s@.skip(start as int))) by {
                assert(done.drop_last() + (seq![line@] + text_lines(s@.skip(start as int))) =~= done
                    + text_lines(s@.skip(start as int)));
            }
        }
    }
    assert(s@.skip(n as int) =~= Seq::<char>::empty());
    assert(done + text_lines(Seq::<char>::empty()) =~= done);
    pairs
}

/// The pids whose parent is `ppid` in a `(pid, ppid)` list, in order.
pub open spec fn children_in(pairs: Seq<(u32, u32)>, ppid: u32) -> Seq<u32>
    decreases pairs.len(),
{
    if pairs.len() == 0 {
        seq![]
    } else {
        let rest = children_in(pairs.drop_last(), ppid);
        if pairs.last().1 == ppid {
            rest.push(pairs.last().0)
        } else {
            rest
        }
    }
}

/// The number of pairs whose parent has not been looked up yet.
pub open spec fn untaken_count(pairs: Seq<(u32, u32)>, taken: Seq<u32>) -> nat
    decreases pairs.len(),
{
    if pairs.len() == 0 {
        0
    } else {
        untaken_count(pairs.drop_last(), taken) + if taken.contains(pairs.last().1) {
            0nat
        } else {
            1nat
        }
    }
}

proof fn lemma_take_parent(pairs: Seq<(u32, u32)>, taken: Seq<u32>, p: u32)
    requires
        !taken.contains(p),
    ensures
        untaken_count(pairs, taken.push(p)) + children_in(pairs, p).len() == untaken_count(
            pairs,
            taken,
        ),
    decreases pairs.len(),
{
    if pairs.len() > 0 {
        lemma_take_parent(pairs.drop_last(), taken, p);
        assert(taken.push(p).contains(pairs.last().1) == (taken.contains(pairs.last().1)
            || pairs.last().1 == p)) by {
            if pairs.last().1 == p {
                assert(taken.push(p)[taken.len() as int] == p);
            }
            if taken.push(p).contains(pairs.last().1) {
                let k = choose|k: int| 0 <= k < taken.push(p).len() && taken.push(p)[k] == pairs.last().1;
                if k < taken.len() {
                    assert(taken[k] == pairs.last().1);
                }
            }
            if taken.contains(pairs.last().1) {
                let k = choose|k: int| 0 <= k < taken.len() && taken[k] == pairs.last().1;
                assert(taken.push(p)[k] == pairs.last().1);
            }
        }
    }
}

proof fn lemma_children_in_sound(pairs: Seq<(u32, u32)>, p: u32, k: int)
    requires
        0 <= k < children_in(pairs, p).len(),
    ensures
        exists|j: int| 0 <= j < pairs.len() && pairs[j].0 == children_in(pairs, p)[k] && pairs[j].1
            == p,
    decreases pairs.len(),
{
    let rest = children_in(pairs.drop_last(), p);
    if k < rest.len() {
        lemma_children_in_sound(pairs.drop_last(), p, k);
        let j = choose|j: int| 0 <= j < pairs.drop_last().len() && pairs.drop_last()[j].0 == rest[k]
            && pairs.drop_last()[j].1 == p;
        assert(pairs[j] == pairs.drop_last()[j]);
    } else {
        assert(pairs[pairs.len() - 1] == pairs.last());
    }
}

proof fn lemma_children_in_complete(pairs: Seq<(u32, u32)>, p: u32, j: int)
    requires
        0 <= j < pairs.len(),
        pairs[j].1 == p,
    ensures
        children_in(pairs, p).contains(pairs[j].0),
    decreases pairs.len(),
{
    let rest = children_in(pairs.drop_last(), p);
    if j < pairs.len() - 1 {
        assert(pairs.drop_last()[j] == pairs[j]);
        lemma_children_in_complete(pairs.drop_last(), p, j);
        let k = choose|k: int| 0 <= k < rest.len() && rest[k] == pairs[j].0;
        if pairs.last().1 == p {
            assert(rest.push(pairs.last().0)[k] == pairs[j].0);
        }
    } else {
        assert(rest.push(pairs.last().0)[rest.len() as int] == pairs[j].0);
    }
}

/// A parent to children lookup built from a `(pid, ppid)` list. Each
/// parent's children are handed out once: a later lookup of the same
/// parent finds none.
pub struct ChildrenLookup {
    pairs: Vec<(u32, u32)>,
    taken: Vec<u32>,
}

impl ChildrenLookup {
    /// The `(pid, ppid)` list the lookup was built from.
    pub closed spec fn pairs(&self) -> Seq<(u32, u32)> {
        self.pairs@
    }

    /// The parents already looked up.
    pub closed spec fn taken(&self) -> Seq<u32> {
        self.taken@
    }

    /// Return the children of `ppid`, in list order, the first time it is
    /// asked for; nothing after that.
    pub fn children_of(&mut self, ppid: u32) -> (r: Vec<u32>)
        ensures
            final(self).pairs() == old(self).pairs(),
            old(self).taken().contains(ppid) ==> r@.len() == 0 && final(self).taken() == old(
                self,
            ).taken(),
            !old(self).taken().contains(ppid) ==> r@ == children_in(old(self).pairs(), ppid)
                && final(self).taken() == old(self).taken().push(ppid),
    {
        if contains_pid(&self.taken, ppid) {
            return Vec::new();
        }
        let mut r: Vec<u32> = Vec::new();
        let mut i: usize = 0;
        while i < self.pairs.len()
            invariant
                i <= self.pairs@.len(),
                self.pairs@ == old(self).pairs@,
                self.taken@ == old(self).taken@,
                r@ == children_in(self.pairs@.take(i as int), ppid),
            decreases self.pairs@.len() - i,
        {
            proof {
                assert(self.pairs@.take(i + 1).drop_last() =~= self.pairs@.take(i as int));
            }
            let (pid, parent) = self.pairs[i];
            if parent == ppid {
                r.push(pid);
            }
            i = i + 1;
        }
        assert(self.pairs@.take(self.pairs@.len() as int) =~= self.pairs@);
        self.taken.push(ppid);
        r
    }
}

/// Build a parent to children lookup from a `(pid, ppid)` list.
pub fn lookup_from_pairs(pairs: Vec<(u32, u32)>) -> (r: ChildrenLookup)
    ensures
        r.pairs() == pairs@,
        r.taken() == Seq::<u32>::empty(),
{
    ChildrenLookup { pairs, taken: Vec::new() }
}

/// Returns true if `v` holds `x`.
pub fn contains_pid(v: &Vec<u32>, x: u32) -> (r: bool)
    ensures
        r == v@.contains(x),
{
    let mut i: usize = 0;
    while i < v.len()
        invariant
            i <= v@.len(),
            forall|k: int| 0 <= k < i ==> v@[k] != x,
        decreases v@.len() - i,
    {
        if v[i] == x {
            return true;
        }
        i = i + 1;
    }
    false
}

proof fn lemma_push_contains(s: Seq<u32>, v: u32)
    ensures
        forall|x: u32| #[trigger] s.push(v).contains(x) == (s.contains(x) || x == v),
{
    assert forall|x: u32| #[trigger] s.push(v).contains(x) == (s.contains(x) || x == v) by {
        if s.push(v).contains(x) {
            let k = choose|k: int| 0 <= k < s.push(v).len() && s.push(v)[k] == x;
            if k < s.len() {
                assert(s[k] == x);
            }
        }
        if s.contains(x) {
            let k = choose|k: int| 0 <= k < s.len() && s[k] == x;
            assert(s.push(v)[k] == x);
        }
        if x == v {
            assert(s.push(v)[s.len() as int] == x);
        }
    }
}

/// True when no pid occurs twice in `s`.
pub open spec fn distinct(s: Seq<u32>) -> bool {
    forall|i: int, j: int| 0 <= i < j < s.len() ==> s[i] != s[j]
}

/// Every listed pid has a parent that is `root` or listed before it.
pub open spec fn parents_first(pairs: Seq<(u32, u32)>, root: u32, found: Seq<u32>) -> bool {
    forall|i: int|
        #![trigger found[i]]
        0 <= i < found.len() ==> exists|j: int|
            0 <= j < pairs.len() && pairs[j].0 == found[i] && (pairs[j].1 == root || found.take(
                i,
            ).contains(pairs[j].1))
}

/// `root` and the listed pids are closed under taking children: every
/// child of one of them is one of them.
pub open spec fn closed_under_children(pairs: Seq<(u32, u32)>, root: u32, found: Seq<u32>) -> bool {
    forall|j: int|
        0 <= j < pairs.len() && (pairs[j].1 == root || found.contains(pairs[j].1)) ==> (pairs[j].0
            == root || found.contains(#[trigger] pairs[j].0))
}

/// Return every descendant of `pid` (children, grandchildren, and so on)
/// in the process table `pairs` of `(pid, ppid)` entries, parents before
/// their children.
pub fn descendants(pid: u32, pairs: Vec<(u32, u32)>) -> (r: Vec<u32>)
    ensures
        distinct(r@),
        !r@.contains(pid),
        parents_first(pairs@, pid, r@),
        closed_under_children(pairs@, pid, r@),
{
    let ghost all = pairs@;
    let mut lookup = lookup_from_pairs(pairs);
    let mut queue: Vec<u32> = Vec::new();
    queue.push(pid);
    let mut found: Vec<u32> = Vec::new();
    assert(queue@[0] == pid);
    while queue.len() > 0
        invariant
            lookup.pairs() == all,
            distinct(found@),
            !found@.contains(pid),
            distinct(queue@),
            forall|k: int| 0 <= k < queue@.len() ==> (#[trigger] queue@[k] == pid || found@.contains(
                queue@[k],
            )) && !lookup.taken().contains(queue@[k]),
            forall|x: u32| #[trigger] lookup.taken().contains(x) ==> x == pid || found@.contains(x),
            forall|x: u32|
                (x == pid || found@.contains(x)) ==> #[trigger] lookup.taken().contains(x)
                    || queue@.contains(x),
            forall|j: int|
                0 <= j < all.len() && lookup.taken().contains(all[j].1) ==> (all[j].0 == pid
                    || found@.contains(#[trigger] all[j].0)),
            parents_first(all, pid, found@),
        decreases untaken_count(all, lookup.taken()) + queue@.len(),
    {
        let ghost q0 = queue@;
        let ghost f0 = found@;
        let ghost t0 = lookup.taken();
        let parent = queue.pop().unwrap();
        assert(q0 == queue@.push(parent));
        assert(q0[q0.len() - 1] == parent);
        assert(!t0.contains(parent));
        let children = lookup.children_of(parent);
        proof {
            lemma_take_parent(all, t0, parent);
            lemma_push_contains(t0, parent);
            lemma_push_contains(queue@, parent);
        }
        let ghost q1 = queue@;
        let mut idx: usize = 0;
        while idx < children.len()
            invariant
                lookup.pairs() == all,
                lookup.taken() == t0.push(parent),
                children@ == children_in(all, parent),
                idx <= children@.len(),
                queue@.len() <= q1.len() + idx,
                q1 == q0.drop_last(),
                parent == pid || f0.contains(parent),
                f0.len() <= found@.len(),
                found@.take(f0.len() as int) == f0,
                distinct(found@),
                !found@.contains(pid),
                distinct(queue@),
                forall|k: int| 0 <= k < queue@.len() ==> (#[trigger] queue@[k] == pid
                    || found@.contains(queue@[k])) && !lookup.taken().contains(queue@[k]),
                forall|x: u32| #[trigger] lookup.taken().contains(x) ==> x == pid || found@.contains(x),
                forall|x: u32|
                    (x == pid || found@.contains(x)) ==> #[trigger] lookup.taken().contains(x)
                        || queue@.contains(x),
                forall|j: int|
                    0 <= j < all.len() && t0.contains(all[j].1) ==> (all[j].0 == pid
                        || found@.contains(#[trigger] all[j].0)),
                forall|k: int| 0 <= k < idx ==> (#[trigger] children@[k] == pid || found@.contains(children@[k])),
                parents_first(all, pid, found@),
            decreases children@.len() - idx,
        {
            let child = children[idx];
            let seen = child == pid || contains_pid(&found, child);
            if !seen {
                let ghost fb = found@;
                let ghost qb = queue@;
                proof {
                    lemma_children_in_sound(all, parent, idx as int);
                    assert(!lookup.taken().contains(child));
                    lemma_push_contains(qb, child);
                    lemma_push_contains(fb, child);
                }
                found.push(child);
                queue.push(child);
                proof {
                    assert(found@.take(fb.len() as int) =~= fb);
                    assert(found@.take(f0.len() as int) =~= f0) by {
                        assert(fb.take(f0.len() as int) == f0);
                    }
                    assert forall|y: u32| fb.contains(y) implies found@.contains(y) by {
                        let k = choose|k: int| 0 <= k < fb.len() && fb[k] == y;
                        assert(found@[k] == y);
                    }
                    assert(found@[fb.len() as int] == child);
                    assert forall|y: u32| found@.contains(y) implies fb.contains(y) || y == child by {
                        let k = choose|k: int| 0 <= k < found@.len() && found@[k] == y;
                        if k < fb.len() {
                            assert(fb[k] == y);
                        }
                    }
                    assert(distinct(found@));
                    assert(queue@[queue@.len() - 1] == child);
                    assert forall|y: u32| (y == child || queue@.drop_last().contains(y)) implies #[trigger] queue@.contains(y) by {
                        if y != child && queue@.drop_last().contains(y) {
                            let k = choose|k: int| 0 <= k < queue@.drop_last().len() && queue@.drop_last()[k] == y;
                            assert(queue@[k] == y);
                        }
                    }
                    assert(parents_first(all, pid, found@)) by {
                        assert forall|i: int| 0 <= i < found@.len() implies exists|j: int|
                            0 <= j < all.len() && all[j].0 == #[trigger] found@[i] && (all[j].1 == pid
                                || found@.take(i).contains(all[j].1)) by {
                            if i < fb.len() {
                                assert(found@[i] == fb[i]);
                                assert(found@.take(i) =~= fb.take(i));
                            } else {
                                let j = choose|j: int| 0 <= j < all.len() && all[j].0 == children_in(all, parent)[idx as int] && all[j].1 == parent;
                                assert(found@.take(i) =~= fb);
                                if parent != pid {
                                    let k = choose|k: int| 0 <= k < f0.len() && f0[k] == parent;
                                    assert(fb[k] == parent);
                                }
                            }
                        }
                    }
                }
            }
            idx = idx + 1;
        }
        proof {
            assert forall|j: int|
                0 <= j < all.len() && lookup.taken().contains(all[j].1) implies (all[j].0 == pid
                    || found@.contains(#[trigger] all[j].0)) by {
                if all[j].1 == parent {
                    lemma_children_in_complete(all, parent, j);
                    let k = choose|k: int| 0 <= k < children@.len() && children@[k] == all[j].0;
                    assert(children@[k] == pid || found@.contains(children@[k]));
                } else {
                    let t = lookup.taken();
                    let k = choose|k: int| 0 <= k < t.len() && t[k] == all[j].1;
                    assert(t0[k] == all[j].1);
                }
            }
        }
    }
    proof {
        assert forall|j: int|
            0 <= j < all.len() && (all[j].1 == pid || found@.contains(all[j].1)) implies (all[j].0 == pid
                || found@.contains(#[trigger] all[j].0)) by {
            assert(lookup.taken().contains(all[j].1) || queue@.contains(all[j].1));
        }
    }
    found
}

} // verus!
