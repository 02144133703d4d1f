//! Byte-level processing of streamed process output: prefixing lines as
//! they stream, and collapsing carriage-return redraw frames in captured
//! output.

use vstd::prelude::*;

verus! {

/// The newline byte.
pub const LF: u8 = 10;

/// The carriage return byte.
pub const CR: u8 = 13;

/// What remains of `content` after its last carriage return (all of it
/// when it holds none).
pub open spec fn after_last_cr(content: Seq<u8>) -> Seq<u8>
    decreases content.len(),
{
    if content.len() == 0 {
        content
    } else if content.last() == CR {
        Seq::empty()
    } else {
        after_last_cr(content.drop_last()).push(content.last())
    }
}

/// The length of the line ending of `line`: 2 for `\r\n`, 1 for `\n`,
/// 0 when it has none.
pub open spec fn ending_len(line: Seq<u8>) -> int {
    if line.len() >= 2 && line[line.len() - 2] == CR && line.last() == LF {
        2
    } else if line.len() >= 1 && line.last() == LF {
        1
    } else {
        0
    }
}

/// One line with its redraws collapsed: the content after its last
/// carriage return, followed by its line ending. A `\r\n` ending is not a
/// redraw.
pub open spec fn collapse_line(line: Seq<u8>) -> Seq<u8> {
    let cut = line.len() - ending_len(line);
    after_last_cr(line.take(cut)) + line.skip(cut)
}

/// The number of bytes before the first newline of `s` (its length when
/// there is none).
pub open spec fn newline_pos(s: Seq<u8>) -> nat
    decreases s.len(),
{
    if s.len() == 0 {
        0
    } else if s[0] == LF {
        0
    } else {
        1 + newline_pos(s.drop_first())
    }
}

/// Captured output with every line's redraw frames collapsed, lines being
/// split after each newline.
pub open spec fn collapse_frames(data: Seq<u8>) -> Seq<u8>
    decreases data.len(),
{
    let p = newline_pos(data) as int;
    if p >= data.len() {
        collapse_line(data)
    } else {
        collapse_line(data.take(p + 1)) + collapse_frames(data.skip(p + 1))
    }
}

proof fn lemma_newline_pos_bound(s: Seq<u8>)
    ensures
        newline_pos(s) <= s.len(),
        newline_pos(s) < s.len() ==> s[newline_pos(s) as int] == LF,
        forall|k: int| 0 <= k < newline_pos(s) ==> s[k] != LF,
    decreases s.len(),
{
    if s.len() > 0 && s[0] != LF {
        lemma_newline_pos_bound(s.drop_first());
        assert forall|k: int| 0 <= k < newline_pos(s) implies s[k] != LF by {
            if k > 0 {
                assert(s[k] == s.drop_first()[k - 1]);
            }
        }
    }
}

proof fn lemma_newline_pos_step(s: Seq<u8>, j: int)
    requires
        0 <= j < s.len(),
        s[j] != LF,
    ensures
        newline_pos(s.skip(j)) == 1 + newline_pos(s.skip(j + 1)),
{
    assert(s.skip(j).drop_first() =~= s.skip(j + 1));
}

proof fn lemma_after_last_cr_no_cr(c: Seq<u8>)
    requires
        forall|k: int| 0 <= k < c.len() ==> c[k] != CR,
    ensures
        after_last_cr(c) == c,
    decreases c.len(),
{
    if c.len() > 0 {
        lemma_after_last_cr_no_cr(c.drop_last());
        assert(c.drop_last().push(c.last()) =~= c);
    }
}

proof fn lemma_collapse_no_cr(data: Seq<u8>)
    requires
        forall|k: int| 0 <= k < data.len() ==> data[k] != CR,
    ensures
        collapse_frames(data) == data,
    decreases data.len(),
{
    lemma_newline_pos_bound(data);
    let p = newline_pos(data) as int;
    if p >= data.len() {
        let cut = data.len() - ending_len(data);
        lemma_after_last_cr_no_cr(data.take(cut));
        assert(data.take(cut) + data.skip(cut) =~= data);
    } else {
        let line = data.take(p + 1);
        let cut = line.len() - ending_len(line);
        assert(ending_len(line) == 1);
        lemma_after_last_cr_no_cr(line.take(cut));
        assert(line.take(cut) + line.skip(cut) =~= line);
        lemma_collapse_no_cr(data.skip(p + 1));
        assert(line + data.skip(p + 1) =~= data);
    }
}

/// Append `data[from..to]` to `out`.
fn extend_range(out: &mut Vec<u8>, data: &[u8], from: usize, to: usize)
    requires
        from <= to <= data@.len(),
    ensures
        final(out)@ == old(out)@ + data@.subrange(from as int, to as int),
{
    let mut k = from;
    while k < to
        invariant
            from <= k <= to <= data@.len(),
            out@ == old(out)@ + data@.subrange(from as int, k as int),
        decreases to - k,
    {
        out.push(data[k]);
        assert(data@.subrange(from as int, k + 1) =~= data@.subrange(from as int, k as int).push(
            data@[k as int],
        ));
        k = k + 1;
    }
}

/// Collapse the redraws of the line `data[start..end]` and append the
/// result to `out`.
#[verifier::rlimit(40)]
fn collapse_line_into(out: &mut Vec<u8>, data: &[u8], start: usize, end: usize)
    requires
        start <= end <= data@.len(),
    ensures
        final(out)@ == old(out)@ + collapse_line(data@.subrange(start as int, end as int)),
{
    let ghost line = data@.subrange(start as int, end as int);
    let len = end - start;
    let elen: usize = if len >= 2 && data[end - 2] == CR && data[end - 1] == LF {
        2
    } else if len >= 1 && data[end - 1] == LF {
        1
    } else {
        0
    };
    assert(elen == ending_len(line));
    let cut = end - elen;
    let ghost content = line.take(cut - start);
    let mut k = cut;
    assert(content.skip(cut - start) =~= Seq::<u8>::empty());
    assert(content.take(cut - start) =~= content);
    while k > start && data[k - 1] != CR
        invariant
            start <= k <= cut,
            cut <= end <= data@.len(),
            line == data@.subrange(start as int, end as int),
            content == line.take(cut - start),
            after_last_cr(content) == after_last_cr(content.take(k - start)) + content.skip(
                k - start,
            ),
        decreases k,
    {
        proof {
            let m = k - start;
            let pre = content.take(m);
            assert(pre.last() == data@[k - 1]);
            assert(pre.drop_last() =~= content.take(m - 1));
            assert(content.skip(m - 1) =~= seq![pre.last()] + content.skip(m));
            assert(after_last_cr(pre) == after_last_cr(content.take(m - 1)).push(pre.last()));
            assert(after_last_cr(content.take(m - 1)).push(pre.last()) + content.skip(m)
                =~= after_last_cr(content.take(m - 1)) + content.skip(m - 1));
        }
        k = k - 1;
    }
    proof {
        if k > start {
            assert(content.take(k - start).last() == CR);
        }
        assert(after_last_cr(content.take(k - start)) =~= Seq::<u8>::empty());
        assert(content.skip(k - start) =~= data@.subrange(k as int, cut as int));
        assert(line.skip(cut - start) =~= data@.subrange(cut as int, end as int));
    }
    extend_range(out, data, k, cut);
    extend_range(out, data, cut, end);
    assert(out@ =~= old(out)@ + collapse_line(line));
}

/// Within each line, keep only the content after the last carriage
/// return, so that redraw frames (progress bars, spinners) don't replay
/// when captured output is rendered from cache. Trailing `\r\n` line
/// endings are not treated as redraws.
pub fn collapse_redraw_frames(data: Vec<u8>) -> (r: Vec<u8>)
    ensures
        r@ == collapse_frames(data@),
{
    let n = data.len();
    let mut has_cr = false;
    let mut i: usize = 0;
    while i < n
        invariant
            n == data@.len(),
            i <= n,
            !has_cr ==> forall|k: int| 0 <= k < i ==> data@[k] != CR,
        decreases n - i,
    {
        if data[i] == CR {
            has_cr = true;
        }
        i = i + 1;
    }
    if !has_cr {
        proof {
            lemma_collapse_no_cr(data@);
        }
        return data;
    }
    let mut result: Vec<u8> = Vec::new();
    let mut start: usize = 0;
    assert(data@.skip(0) =~= data@);
    while start < n
        invariant
            n == data@.len(),
            start <= n,
            collapse_frames(data@) == result@ + collapse_frames(data@.skip(start as int)),
        decreases n - start,
    {
        let ghost rest = data@.skip(start as int);
        let mut j = start;
        assert(rest =~= data@.skip(j as int));
        while j < n && data[j] != LF
            invariant
                start <= j <= n == data@.len(),
                rest == data@.skip(start as int),
                newline_pos(rest) == (j - start) + newline_pos(data@.skip(j as int)),
            decreases n - j,
        {
            proof {
                lemma_newline_pos_step(data@, j as int);
            }
            j = j + 1;
        }
        if j < n {
            assert(newline_pos(data@.skip(j as int)) == 0);
            assert(rest.take(j - start + 1) =~= data@.subrange(start as int, j + 1));
            assert(rest.skip(j - start + 1) =~= data@.skip(j + 1));
            collapse_line_into(&mut result, data.as_slice(), start, j + 1);
            start = j + 1;
        } else {
            assert(data@.skip(n as int) =~= Seq::<u8>::empty());
            assert(rest =~= data@.subrange(start as int, n as int));
            let ghost before = result@;
            collapse_line_into(&mut result, data.as_slice(), start, n);
            assert(collapse_frames(rest) == collapse_line(rest));
            assert(data@.skip(n as int) =~= Seq::<u8>::empty());
            assert(collapse_frames(Seq::<u8>::empty()) =~= Seq::<u8>::empty()) by {
                assert(Seq::<u8>::empty().take(0) =~= Seq::<u8>::empty());
                assert(Seq::<u8>::empty().skip(0) =~= Seq::<u8>::empty());
            }
            assert(result@ + collapse_frames(data@.skip(n as int)) =~= result@);
            start = n;
        }
    }
    result
}

/// True when every carriage return in `s` is immediately followed by a
/// newline: nothing in it redraws a line.
pub open spec fn no_redraw(s: Seq<u8>) -> bool {
    forall|k: int| 0 <= k < s.len() && #[trigger] s[k] == CR ==> k + 1 < s.len() && s[k + 1] == LF
}

proof fn lemma_after_last_cr_has_no_cr(c: Seq<u8>)
    ensures
        forall|k: int| 0 <= k < after_last_cr(c).len() ==> after_last_cr(c)[k] != CR,
    decreases c.len(),
{
    if c.len() > 0 && c.last() != CR {
        lemma_after_last_cr_has_no_cr(c.drop_last());
        let a = after_last_cr(c.drop_last());
        assert forall|k: int| 0 <= k < a.push(c.last()).len() implies a.push(c.last())[k] != CR by {
            if k < a.len() {
                assert(a.push(c.last())[k] == a[k]);
            }
        }
    }
}

proof fn lemma_no_redraw_concat(a: Seq<u8>, b: Seq<u8>)
    requires
        no_redraw(a),
        no_redraw(b),
    ensures
        no_redraw(a + b),
{
    let s = a + b;
    assert forall|k: int| 0 <= k < s.len() && #[trigger] s[k] == CR implies k + 1 < s.len() && s[k + 1]
        == LF by {
        if k < a.len() {
            assert(a[k] == CR);
        } else {
            assert(b[k - a.len()] == CR);
        }
    }
}

proof fn lemma_collapse_line_no_redraw(line: Seq<u8>)
    ensures
        no_redraw(collapse_line(line)),
{
    let cut = line.len() - ending_len(line);
    let f = after_last_cr(line.take(cut));
    let e = line.skip(cut);
    lemma_after_last_cr_has_no_cr(line.take(cut));
    assert(no_redraw(f));
    if ending_len(line) == 2 {
        assert(e =~= seq![CR, LF]);
    } else if ending_len(line) == 1 {
        assert(e =~= seq![LF]);
    } else {
        assert(e =~= Seq::<u8>::empty());
    }
    assert(no_redraw(e));
    lemma_no_redraw_concat(f, e);
}

proof fn lemma_collapse_frames_no_redraw(data: Seq<u8>)
    ensures
        no_redraw(collapse_frames(data)),
    decreases data.len(),
{
    lemma_newline_pos_bound(data);
    let p = newline_pos(data) as int;
    if p >= data.len() {
        lemma_collapse_line_no_redraw(data);
    } else {
        lemma_collapse_line_no_redraw(data.take(p + 1));
        lemma_collapse_frames_no_redraw(data.skip(p + 1));
        lemma_no_redraw_concat(collapse_line(data.take(p + 1)), collapse_frames(data.skip(p + 1)));
    }
}

proof fn lemma_collapse_line_fixed(line: Seq<u8>)
    requires
        no_redraw(line),
        forall|k: int| 0 <= k < line.len() - 1 ==> line[k] != LF,
    ensures
        collapse_line(line) == line,
{
    let cut = line.len() - ending_len(line);
    let c = line.take(cut);
    assert forall|k: int| 0 <= k < c.len() implies c[k] != CR by {
        if line[k] == CR {
            assert(line[k + 1] == LF);
            if k + 1 < line.len() - 1 {
                assert(false);
            } else {
                assert(k == line.len() - 2);
                assert(ending_len(line) == 2);
            }
        }
    }
    lemma_after_last_cr_no_cr(c);
    assert(c + line.skip(cut) =~= line);
}

proof fn lemma_collapse_fixed(s: Seq<u8>)
    requires
        no_redraw(s),
    ensures
        collapse_frames(s) == s,
    decreases s.len(),
{
    lemma_newline_pos_bound(s);
    let p = newline_pos(s) as int;
    if p >= s.len() {
        lemma_collapse_line_fixed(s);
    } else {
        let line = s.take(p + 1);
        let rest = s.skip(p + 1);
        assert(no_redraw(line)) by {
            assert forall|k: int| 0 <= k < line.len() && #[trigger] line[k] == CR implies k + 1 < line.len()
                && line[k + 1] == LF by {
                assert(s[k] == CR);
                if k == p {
                    assert(s[p] == LF);
                }
            }
        }
        assert(no_redraw(rest)) by {
            assert forall|k: int| 0 <= k < rest.len() && #[trigger] rest[k] == CR implies k + 1 < rest.len()
                && rest[k + 1] == LF by {
                assert(s[k + p + 1] == CR);
            }
        }
        lemma_collapse_line_fixed(line);
        lemma_collapse_fixed(rest);
        assert(line + rest =~= s);
    }
}

/// Collapsing leaves no redraw behind: every carriage return left in the
/// result ends a `\r\n` line ending.
pub proof fn law_collapse_leaves_no_redraw(data: Seq<u8>)
    ensures
        no_redraw(collapse_frames(data)),
{
    lemma_collapse_frames_no_redraw(data);
}

/// Collapsing is idempotent: collapsing already collapsed output changes
/// nothing.
pub proof fn law_collapse_idempotent(data: Seq<u8>)
    ensures
        collapse_frames(collapse_frames(data)) == collapse_frames(data),
{
    lemma_collapse_frames_no_redraw(data);
    lemma_collapse_fixed(collapse_frames(data));
}

/// Output without carriage returns is captured unchanged.
pub proof fn law_collapse_without_cr_is_identity(data: Seq<u8>)
    requires
        forall|k: int| 0 <= k < data.len() ==> data[k] != CR,
    ensures
        collapse_frames(data) == data,
{
    lemma_collapse_no_cr(data);
}

/// Streamed output with `prefix` written before every line, starting
/// within a line unless `at_start` holds.
pub open spec fn prefixed(prefix: Seq<u8>, data: Seq<u8>, at_start: bool) -> Seq<u8>
    decreases data.len(),
{
    if data.len() == 0 {
        Seq::empty()
    } else {
        (if at_start {
            prefix
        } else {
            Seq::empty()
        }) + seq![data[0]] + prefixed(prefix, data.drop_first(), data[0] == LF)
    }
}

/// Whether the stream is at the start of a line after `data`.
pub open spec fn at_line_start_after(data: Seq<u8>, at_start: bool) -> bool {
    if data.len() == 0 {
        at_start
    } else {
        data.last() == LF
    }
}

proof fn lemma_prefixed_push(prefix: Seq<u8>, a: Seq<u8>, x: u8, s: bool)
    ensures
        prefixed(prefix, a.push(x), s) == prefixed(prefix, a, s) + (if at_line_start_after(a, s) {
            prefix
        } else {
            Seq::empty()
        }) + seq![x],
    decreases a.len(),
{
    if a.len() == 0 {
        assert(a.push(x).drop_first() =~= Seq::<u8>::empty());
        assert(prefixed(prefix, Seq::<u8>::empty(), x == LF) =~= Seq::<u8>::empty());
        assert(prefixed(prefix, a, s) =~= Seq::<u8>::empty());
        assert(prefixed(prefix, a.push(x), s) =~= (if s {
            prefix
        } else {
            Seq::empty()
        }) + seq![x]);
    } else {
        assert(a.push(x).drop_first() =~= a.drop_first().push(x));
        assert(a.push(x)[0] == a[0]);
        lemma_prefixed_push(prefix, a.drop_first(), x, a[0] == LF);
        if a.len() == 1 {
            assert(a.drop_first() =~= Seq::<u8>::empty());
        } else {
            assert(a.drop_first().last() == a.last());
        }
    }
}

proof fn lemma_prefixed_concat(prefix: Seq<u8>, a: Seq<u8>, b: Seq<u8>, s: bool)
    ensures
        prefixed(prefix, a + b, s) == prefixed(prefix, a, s) + prefixed(
            prefix,
            b,
            at_line_start_after(a, s),
        ),
    decreases a.len(),
{
    if a.len() == 0 {
        assert(a + b =~= b);
    } else {
        assert((a + b).drop_first() =~= a.drop_first() + b);
        assert((a + b)[0] == a[0]);
        lemma_prefixed_concat(prefix, a.drop_first(), b, a[0] == LF);
        if a.len() == 1 {
            assert(a.drop_first() =~= Seq::<u8>::empty());
        } else {
            assert(a.drop_first().last() == a.last());
        }
    }
}

/// Streaming is independent of how the output is split into chunks:
/// prefixing two chunks in turn, carrying the line state over, gives what
/// prefixing them at once gives.
pub proof fn law_prefix_chunking(prefix: Seq<u8>, a: Seq<u8>, b: Seq<u8>, at_start: bool)
    ensures
        prefixed(prefix, a + b, at_start) == prefixed(prefix, a, at_start) + prefixed(
            prefix,
            b,
            at_line_start_after(a, at_start),
        ),
{
    lemma_prefixed_concat(prefix, a, b, at_start);
}

/// Writes streamed output to the console with an optional prefix before
/// every line, tracking across chunks whether a line has started.
pub struct LinePrefixer {
    /// Written before every line, when set.
    pub prefix: Option<String>,
    /// True when the next byte starts a new line.
    pub at_line_start: bool,
}

/// The bytes of a prefix.
pub open spec fn prefix_bytes(prefix: Option<String>) -> Option<Seq<u8>> {
    match prefix {
        Some(p) => Some(vstd::utf8::encode_utf8(p@)),
        None => None,
    }
}

/// What writing `chunk` shows with the given prefix: the chunk with the
/// prefix before every line, or the chunk as is without a prefix.
pub open spec fn shown(prefix: Option<Seq<u8>>, chunk: Seq<u8>, at_start: bool) -> Seq<u8> {
    match prefix {
        Some(p) => prefixed(p, chunk, at_start),
        None => chunk,
    }
}

impl LinePrefixer {
    /// A prefixer at the start of a line.
    pub fn new(prefix: Option<String>) -> (r: LinePrefixer)
        ensures
            r.prefix == prefix,
            r.at_line_start,
    {
        LinePrefixer { prefix, at_line_start: true }
    }

    /// Append `chunk` to `out` as it is to be shown: with the prefix
    /// before each line when one is set, as is otherwise.
    pub fn write_chunk(&mut self, chunk: &[u8], out: &mut Vec<u8>)
        ensures
            final(self).prefix == old(self).prefix,
            final(out)@ == old(out)@ + shown(
                prefix_bytes(old(self).prefix),
                chunk@,
                old(self).at_line_start,
            ),
            old(self).prefix is Some ==> final(self).at_line_start == at_line_start_after(
                chunk@,
                old(self).at_line_start,
            ),
            old(self).prefix is None ==> final(self).at_line_start == old(self).at_line_start,
    {
        match &self.prefix {
            None => {
                extend_range(out, chunk, 0, chunk.len());
                assert(chunk@.subrange(0, chunk@.len() as int) =~= chunk@);
            },
            Some(p) => {
                let bytes = p.as_str().as_bytes();
                let ghost s0 = self.at_line_start;
                let ghost base = out@;
                let mut at = self.at_line_start;
                let mut i: usize = 0;
                assert(chunk@.take(0) =~= Seq::<u8>::empty());
                assert(prefixed(bytes@, Seq::<u8>::empty(), s0) =~= Seq::<u8>::empty());
                while i < chunk.len()
                    invariant
                        i <= chunk@.len(),
                        out@ == base + prefixed(bytes@, chunk@.take(i as int), s0),
                        at == at_line_start_after(chunk@.take(i as int), s0),
                    decreases chunk@.len() - i,
                {
                    proof {
                        lemma_prefixed_push(bytes@, chunk@.take(i as int), chunk@[i as int], s0);
                        assert(chunk@.take(i + 1) =~= chunk@.take(i as int).push(chunk@[i as int]));
                    }
                    if at {
                        extend_range(out, bytes, 0, bytes.len());
                        assert(bytes@.subrange(0, bytes@.len() as int) =~= bytes@);
                    }
                    out.push(chunk[i]);
                    at = chunk[i] == LF;
                    i = i + 1;
                }
                assert(chunk@.take(chunk@.len() as int) =~= chunk@);
                self.at_line_start = at;
            },
        }
    }
}

/// Streams output to the console while capturing it, as the streaming
/// executor does for each of stdout and stderr.
pub struct StreamCapture {
    /// Prefixes the streamed lines.
    pub prefixer: LinePrefixer,
    /// Every byte read so far.
    pub captured: Vec<u8>,
}

impl StreamCapture {
    /// A capture with nothing read yet.
    pub fn new(prefix: Option<String>) -> (r: StreamCapture)
        ensures
            r.prefixer.prefix == prefix,
            r.prefixer.at_line_start,
            r.captured@.len() == 0,
    {
        StreamCapture { prefixer: LinePrefixer::new(prefix), captured: Vec::new() }
    }

    /// Take in a chunk read from the pipe: capture it byte for byte, and
    /// return what to write to the console for it.
    pub fn feed(&mut self, chunk: &[u8]) -> (shown_bytes: Vec<u8>)
        ensures
            final(self).captured@ == old(self).captured@ + chunk@,
            final(self).prefixer.prefix == old(self).prefixer.prefix,
            shown_bytes@ == shown(
                prefix_bytes(old(self).prefixer.prefix),
                chunk@,
                old(self).prefixer.at_line_start,
            ),
    {
        let mut out: Vec<u8> = Vec::new();
        self.prefixer.write_chunk(chunk, &mut out);
        assert(out@ =~= shown(
            prefix_bytes(old(self).prefixer.prefix),
            chunk@,
            old(self).prefixer.at_line_start,
        ));
        extend_range(&mut self.captured, chunk, 0, chunk.len());
        assert(chunk@.subrange(0, chunk@.len() as int) =~= chunk@);
        out
    }

    /// Finish reading: the captured bytes with redraw frames collapsed.
    pub fn finish(self) -> (r: Vec<u8>)
        ensures
            r@ == collapse_frames(self.captured@),
    {
        collapse_redraw_frames(self.captured)
    }
}

} // verus!
