//! Character and string helpers shared by the rest of the crate: decimal
//! rendering, Unicode whitespace trimming, and UTF-8 decoding of output.

use vstd::prelude::*;
use vstd::utf8::*;

verus! {

/// Appends a character to the end of a `String` (`String::push`).
pub assume_specification[ String::push ](s: &mut String, ch: char)
    ensures
        final(s)@ == old(s)@.push(ch),
;

/// The `White_Space` property of Unicode, which `char::is_whitespace`
/// and `str::trim` use.
pub open spec fn is_white_space(c: char) -> bool {
    let v = c as u32;
    ||| 0x09 <= v <= 0x0d
    ||| v == 0x20
    ||| v == 0x85
    ||| v == 0xa0
    ||| v == 0x1680
    ||| 0x2000 <= v <= 0x200a
    ||| v == 0x2028
    ||| v == 0x2029
    ||| v == 0x202f
    ||| v == 0x205f
    ||| v == 0x3000
}

/// Returns true if `c` has the Unicode `White_Space` property.
pub fn is_whitespace(c: char) -> (r: bool)
    ensures
        r == is_white_space(c),
{
    let v = c as u32;
    (0x09 <= v && v <= 0x0d) || v == 0x20 || v == 0x85 || v == 0xa0 || v == 0x1680 || (0x2000
        <= v && v <= 0x200a) || v == 0x2028 || v == 0x2029 || v == 0x202f || v == 0x205f || v
        == 0x3000
}

/// `s` without its leading characters that satisfy `p`.
pub open spec fn trim_start_by(s: Seq<char>, p: spec_fn(char) -> bool) -> Seq<char>
    decreases s.len(),
{
    if s.len() > 0 && p(s[0]) {
        trim_start_by(s.drop_first(), p)
    } else {
        s
    }
}

/// `s` without its trailing characters that satisfy `p`.
pub open spec fn trim_end_by(s: Seq<char>, p: spec_fn(char) -> bool) -> Seq<char>
    decreases s.len(),
{
    if s.len() > 0 && p(s.last()) {
        trim_end_by(s.drop_last(), p)
    } else {
        s
    }
}

/// `s` without leading and trailing characters that satisfy `p`.
pub open spec fn trim_by(s: Seq<char>, p: spec_fn(char) -> bool) -> Seq<char> {
    trim_end_by(trim_start_by(s, p), p)
}

/// What `str::trim` leaves of `s`.
pub open spec fn trim_spec(s: Seq<char>) -> Seq<char> {
    trim_by(s, whitespace_pred())
}

/// `is_white_space` as a predicate value.
pub open spec fn whitespace_pred() -> spec_fn(char) -> bool {
    |c: char| is_white_space(c)
}

proof fn lemma_trim_start_skip(s: Seq<char>, p: spec_fn(char) -> bool, i: int)
    requires
        0 <= i < s.len(),
        p(s[i]),
    ensures
        trim_start_by(s.skip(i), p) == trim_start_by(s.skip(i + 1), p),
{
    assert(s.skip(i).drop_first() =~= s.skip(i + 1));
}

proof fn lemma_trim_end_take(s: Seq<char>, p: spec_fn(char) -> bool, j: int)
    requires
        0 < j <= s.len(),
        p(s[j - 1]),
    ensures
        trim_end_by(s.take(j), p) == trim_end_by(s.take(j - 1), p),
{
    assert(s.take(j).drop_last() =~= s.take(j - 1));
}

proof fn lemma_trim_start_clean(s: Seq<char>, p: spec_fn(char) -> bool)
    ensures
        trim_start_by(s, p).len() > 0 ==> !p(trim_start_by(s, p)[0]),
    decreases s.len(),
{
    if s.len() > 0 && p(s[0]) {
        lemma_trim_start_clean(s.drop_first(), p);
    }
}

proof fn lemma_trim_end_clean(s: Seq<char>, p: spec_fn(char) -> bool)
    ensures
        trim_end_by(s, p).len() <= s.len(),
        trim_end_by(s, p) == s.take(trim_end_by(s, p).len() as int),
        trim_end_by(s, p).len() > 0 ==> !p(trim_end_by(s, p).last()),
    decreases s.len(),
{
    if s.len() > 0 && p(s.last()) {
        lemma_trim_end_clean(s.drop_last(), p);
        let t = trim_end_by(s.drop_last(), p);
        assert(s.drop_last().take(t.len() as int) =~= s.take(t.len() as int));
    } else {
        assert(s.take(s.len() as int) =~= s);
    }
}

/// Trimming twice trims no more than trimming once.
pub proof fn lemma_trim_idempotent(s: Seq<char>)
    ensures
        trim_spec(trim_spec(s)) == trim_spec(s),
{
    let p = whitespace_pred();
    let u = trim_start_by(s, p);
    let t = trim_end_by(u, p);
    lemma_trim_start_clean(s, p);
    lemma_trim_end_clean(u, p);
    if t.len() > 0 {
        assert(t[0] == u[0]);
    }
    assert(trim_start_by(t, p) == t);
    assert(trim_end_by(t, p) == t);
}

/// The characters of `s[from..to]` collected into a `String`.
pub fn string_from_range(s: &Vec<char>, from: usize, to: usize) -> (r: String)
    requires
        from <= to <= s.len(),
    ensures
        r@ == s@.subrange(from as int, to as int),
{
    let mut r = String::new();
    let mut k = from;
    while k < to
        invariant
            from <= k <= to <= s.len(),
            r@ == s@.subrange(from as int, k as int),
        decreases to - k,
    {
        r.push(s[k]);
        assert(s@.subrange(from as int, k + 1) =~= s@.subrange(from as int, k as int).push(s@[k as int]));
        k = k + 1;
    }
    r
}

/// The characters of `s`, in order.
pub fn chars_of(s: &str) -> (v: Vec<char>)
    ensures
        v@ == s@,
{
    let mut v: Vec<char> = Vec::new();
    for c in it: s.chars()
        invariant
            v@ == it.seq().take(it.index() as int),
            it.seq() == s@,
    {
        v.push(c);
    }
    v
}

/// The characters of `s` collected into a `String`.
pub fn string_from_chars(s: &Vec<char>) -> (r: String)
    ensures
        r@ == s@,
{
    let r = string_from_range(s, 0, s.len());
    assert(s@.subrange(0, s@.len() as int) =~= s@);
    r
}

/// A set of characters that trimming removes from both ends.
#[derive(Clone, Copy, Debug, PartialEq, Eq, Structural)]
pub enum TrimSet {
    /// Unicode whitespace, as `str::trim` removes.
    Whitespace,
    /// The symbols `@`, `-`, `_`, `/` and `.`, which an identifier may
    /// not start or end with after cleaning.
    IdSymbols,
}

/// The symbols trimmed from a cleaned identifier.
pub open spec fn is_id_symbol(c: char) -> bool {
    c == '@' || c == '-' || c == '_' || c == '/' || c == '.'
}

/// Membership in a trim set, as a predicate value.
pub open spec fn trim_pred(set: TrimSet) -> spec_fn(char) -> bool {
    match set {
        TrimSet::Whitespace => whitespace_pred(),
        TrimSet::IdSymbols => |c: char| is_id_symbol(c),
    }
}

fn in_trim_set(set: TrimSet, c: char) -> (r: bool)
    ensures
        r == trim_pred(set)(c),
{
    match set {
        TrimSet::Whitespace => is_whitespace(c),
        TrimSet::IdSymbols => c == '@' || c == '-' || c == '_' || c == '/' || c == '.',
    }
}

/// Returns `s` with leading and trailing Unicode whitespace removed
/// (`str::trim`).
pub fn trim(s: &str) -> (r: String)
    ensures
        r@ == trim_spec(s@),
{
    trim_matching(s, TrimSet::Whitespace)
}

/// Returns `s` with the characters of `set` removed from both ends
/// (`str::trim_matches`).
pub fn trim_matching(s: &str, set: TrimSet) -> (r: String)
    ensures
        r@ == trim_by(s@, trim_pred(set)),
{
    let chars = chars_of(s);
    let n = chars.len();
    let mut i: usize = 0;
    assert(chars@.skip(0) =~= chars@);
    while i < n && in_trim_set(set, chars[i])
        invariant
            i <= n == chars@.len(),
            chars@ == s@,
            trim_start_by(s@, trim_pred(set)) == trim_start_by(chars@.skip(i as int), trim_pred(set)),
        decreases n - i,
    {
        proof {
            lemma_trim_start_skip(chars@, trim_pred(set), i as int);
        }
        i = i + 1;
    }
    let ghost start = chars@.skip(i as int);
    assert(trim_start_by(start, trim_pred(set)) == start) by {
        if start.len() > 0 {
            assert(start[0] == chars@[i as int]);
        }
    }
    let mut j: usize = n;
    assert(start.take((n - i) as int) =~= start);
    while j > i && in_trim_set(set, chars[j - 1])
        invariant
            i <= j <= n == chars@.len(),
            start == chars@.skip(i as int),
            trim_end_by(start, trim_pred(set)) == trim_end_by(start.take(j - i), trim_pred(set)),
        decreases j - i,
    {
        proof {
            assert(start[j - i - 1] == chars@[j - 1]);
            lemma_trim_end_take(start, trim_pred(set), j - i);
        }
        j = j - 1;
    }
    let ghost fin = start.take(j - i);
    assert(trim_end_by(fin, trim_pred(set)) == fin) by {
        if fin.len() > 0 {
            assert(fin.last() == chars@[j - 1]);
        }
    }
    assert(fin =~= chars@.subrange(i as int, j as int));
    string_from_range(&chars, i, j)
}

/// Returns true if `a` and `b` hold the same characters.
pub fn str_eq(a: &str, b: &str) -> (r: bool)
    ensures
        r == (a@ == b@),
{
    let x = chars_of(a);
    let y = chars_of(b);
    if x.len() != y.len() {
        return false;
    }
    let mut i: usize = 0;
    while i < x.len()
        invariant
            x@ == a@,
            y@ == b@,
            x.len() == y.len(),
            i <= x.len(),
            forall|k: int| 0 <= k < i ==> x@[k] == y@[k],
        decreases x.len() - i,
    {
        if x[i] != y[i] {
            return false;
        }
        i = i + 1;
    }
    assert(x@ =~= y@);
    true
}

/// Decodes bytes as UTF-8, replacing each invalid sequence with
/// `U+FFFD`, as `String::from_utf8_lossy` does.
pub uninterp spec fn utf8_lossy(bytes: Seq<u8>) -> Seq<char>;

/// Decodes `data` with `String::from_utf8_lossy` and takes ownership of
/// the result. The contract names the decoding, and states what its
/// documentation gives: valid UTF-8 decodes to exactly its characters.
#[verifier::external_body]
pub(crate) fn decode_lossy(data: &[u8]) -> (r: String)
    ensures
        r@ == utf8_lossy(data@),
        valid_utf8(data@) ==> r@ == decode_utf8(data@),
{
    String::from_utf8_lossy(data).into_owned()
}

/// The decimal digits of `n`, most significant first, without leading
/// zeros (`"0"` for zero).
pub open spec fn decimal_digits(n: nat) -> Seq<char>
    decreases n,
{
    if n < 10 {
        seq![digit_char(n)]
    } else {
        decimal_digits(n / 10).push(digit_char(n % 10))
    }
}

/// The ASCII digit for a value below ten.
pub open spec fn digit_char(d: nat) -> char {
    (d + 48) as char
}

fn digit(d: u64) -> (c: char)
    requires
        d < 10,
    ensures
        c == digit_char(d as nat),
{
    let b: u8 = (d as u8) + 48;
    b as char
}

/// `n` in decimal, as `u64::to_string` renders it.
pub fn u64_to_decimal(n: u64) -> (r: String)
    ensures
        r@ == decimal_digits(n as nat),
    decreases n,
{
    if n < 10 {
        let mut r = String::new();
        r.push(digit(n));
        assert(r@ =~= seq![digit_char(n as nat)]);
        r
    } else {
        let mut r = u64_to_decimal(n / 10);
        r.push(digit(n % 10));
        r
    }
}

/// A signed integer in decimal, with a leading `-` when negative.
pub open spec fn signed_decimal(n: int) -> Seq<char> {
    if n < 0 {
        seq!['-'] + decimal_digits((-n) as nat)
    } else {
        decimal_digits(n as nat)
    }
}

/// `n` in decimal, as `i32::to_string` renders it.
pub fn i32_to_decimal(n: i32) -> (r: String)
    ensures
        r@ == signed_decimal(n as int),
{
    if n < 0 {
        let m: i64 = -(n as i64);
        let digits = u64_to_decimal(m as u64);
        let mut r = String::new();
        r.push('-');
        r.append(digits.as_str());
        assert(r@ =~= seq!['-'] + decimal_digits((-n) as nat));
        r
    } else {
        u64_to_decimal(n as u64)
    }
}

} // verus!
