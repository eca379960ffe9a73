//! The last lines of a log, read from its end in pieces.
use crate::text;
use crate::text::lemmas;
use crate::text::model;
use vstd::prelude::*;
use vstd::slice::slice_subrange;

verus! {

/// How many bytes to read at once.
pub const TAIL_READ_CHUNK: u64 = 8192;

/// How Rust reads bytes as text, with U+FFFD in place of what is not UTF-8.
pub uninterp spec fn lossy_text(bytes: Seq<u8>) -> Seq<char>;

/// `String::from_utf8_lossy`: the bytes as text. It depends on the bytes alone, and what
/// is UTF-8 is decoded as it stands. How many replacement characters come in place of what
/// is not, is left unsaid.
#[verifier::external_body]
fn from_utf8_lossy(bytes: &[u8]) -> (r: String)
    ensures
        r@ == lossy_text(bytes@),
        vstd::utf8::valid_utf8(bytes@) ==> r@ == vstd::utf8::decode_utf8(bytes@),
{
    String::from_utf8_lossy(bytes).into_owned()
}

/// How many line feeds there are.
pub open spec fn line_feeds(bytes: Seq<u8>) -> nat
    decreases bytes.len(),
{
    if bytes.len() == 0 {
        0
    } else {
        line_feeds(bytes.drop_last()) + if bytes.last() == 10 {
            1nat
        } else {
            0
        }
    }
}

/// Where the first line feed is; the length, where there is none.
pub open spec fn first_feed(bytes: Seq<u8>) -> nat
    decreases bytes.len(),
{
    if bytes.len() == 0 || bytes[0] == 10 {
        0
    } else {
        1 + first_feed(bytes.skip(1))
    }
}

/// The last `n`, or all where there are fewer.
pub open spec fn last_of<T>(s: Seq<T>, n: nat) -> Seq<T> {
    if s.len() > n {
        s.skip(s.len() - n)
    } else {
        s
    }
}

/// Counts line feeds.
fn count_line_feeds(bytes: &[u8]) -> (r: usize)
    ensures
        r == line_feeds(bytes@),
{
    let mut n: usize = 0;
    let mut i: usize = 0;
    while i < bytes.len()
        invariant
            i <= bytes.len(),
            n <= i,
            n == line_feeds(bytes@.take(i as int)),
        decreases bytes.len() - i,
    {
        assert(bytes@.take(i + 1).drop_last() == bytes@.take(i as int));
        if bytes[i] == 10 {
            n = n + 1;
        }
        i = i + 1;
    }
    assert(bytes@.take(i as int) == bytes@);
    n
}

/// Where the first line feed is.
fn find_line_feed(bytes: &[u8]) -> (r: usize)
    ensures
        r == first_feed(bytes@),
        r <= bytes@.len(),
{
    let mut i: usize = 0;
    assert(bytes@.skip(0) == bytes@);
    while i < bytes.len() && bytes[i] != 10
        invariant
            i <= bytes.len(),
            first_feed(bytes@) == i + first_feed(bytes@.skip(i as int)),
        decreases bytes.len() - i,
    {
        assert(bytes@.skip(i as int).skip(1) == bytes@.skip(i + 1));
        i = i + 1;
    }
    i
}

/// A read of the last lines under way: the end of the file from `pos` on is there.
pub struct TailReader {
    wanted: usize,
    pos: u64,
    buf: Vec<u8>,
}

/// Where a `TailReader` stands.
pub struct TailView {
    pub wanted: nat,
    pub pos: u64,
    pub buf: Seq<u8>,
}

impl View for TailReader {
    type V = TailView;

    closed spec fn view(&self) -> TailView {
        TailView { wanted: self.wanted as nat, pos: self.pos, buf: self.buf@ }
    }
}

/// What a read of the last lines wants next.
pub enum TailStep {
    /// Read `len` bytes from `pos` on, and hand them to `reader`.
    Read { pos: u64, len: u64, reader: TailReader },
    /// The last lines.
    Done(Vec<String>),
}

impl TailView {
    /// The bytes that are read as text, if the read stops here. Where the start of the
    /// file is not there, the first line may be cut off in the middle of a character: it
    /// is left out.
    pub open spec fn kept(self) -> Seq<u8> {
        if self.pos == 0 {
            self.buf
        } else {
            self.buf.skip(first_feed(self.buf) as int + 1)
        }
    }

    /// The lines that the read comes to, if it stops here.
    pub open spec fn lines(self) -> Seq<Seq<char>> {
        last_of(model::lines(lossy_text(self.kept())), self.wanted)
    }

    /// The lines that the read of UTF-8 comes to, if it stops here.
    pub open spec fn utf8_lines(self) -> Seq<Seq<char>> {
        last_of(model::lines(vstd::utf8::decode_utf8(self.kept())), self.wanted)
    }

    /// More line feeds are there than lines are wanted, or the start of the file is.
    pub open spec fn covers(self) -> bool {
        self.pos == 0 || line_feeds(self.buf) > self.wanted
    }

    /// `step` is what to do from here: stop, or read the piece before.
    pub open spec fn leads_to(self, step: TailStep) -> bool {
        match step {
            TailStep::Done(lines) => {
                &&& self.covers()
                &&& model::texts(lines@) == self.lines()
                &&& vstd::utf8::valid_utf8(self.kept()) ==> model::texts(lines@)
                    == self.utf8_lines()
            },
            TailStep::Read { pos, len, reader } => {
                &&& !self.covers()
                &&& len == if self.pos < TAIL_READ_CHUNK {
                    self.pos
                } else {
                    TAIL_READ_CHUNK
                }
                &&& len > 0
                &&& pos + len == self.pos
                &&& reader@ == self
            },
        }
    }
}

impl TailReader {
    /// Starts a read of the last `n` lines of a file of `file_len` bytes. Where none are
    /// wanted, the file is not read.
    pub fn start(file_len: u64, n: usize) -> (r: TailStep)
        ensures
            n == 0 ==> (r matches TailStep::Done(lines) && lines@.len() == 0),
            n > 0 ==> (TailView { wanted: n as nat, pos: file_len, buf: Seq::empty() }).leads_to(r),
    {
        if n == 0 {
            return TailStep::Done(Vec::new());
        }
        let buf: Vec<u8> = Vec::new();
        assert(buf@ == Seq::<u8>::empty());
        TailReader { wanted: n, pos: file_len, buf }.step()
    }

    /// Goes on with the piece that was asked for.
    pub fn feed(self, chunk: Vec<u8>) -> (r: TailStep)
        requires
            chunk@.len() <= self@.pos,
        ensures
            (TailView {
                wanted: self@.wanted,
                pos: (self@.pos - chunk@.len()) as u64,
                buf: chunk@ + self@.buf,
            }).leads_to(r),
    {
        let mut buf = chunk;
        let pos: u64 = self.pos - buf.len() as u64;
        let ghost piece = buf@;
        buf.extend_from_slice(self.buf.as_slice());
        assert(buf@ == piece + self.buf@);
        TailReader { wanted: self.wanted, pos, buf }.step()
    }

    /// How many bytes are still unread.
    pub fn remaining(&self) -> (r: u64)
        ensures
            r == self@.pos,
    {
        self.pos
    }

    /// Decides whether to stop.
    fn step(self) -> (r: TailStep)
        ensures
            self@.leads_to(r),
    {
        if self.pos == 0 || count_line_feeds(self.buf.as_slice()) > self.wanted {
            let buf = self.buf.as_slice();
            let from: usize = if self.pos == 0 {
                0
            } else {
                proof {
                    lemma_first_feed(buf@);
                }
                find_line_feed(buf) + 1
            };
            let kept = slice_subrange(buf, from, buf.len());
            assert(kept@ == self@.kept());
            let text = from_utf8_lossy(kept);
            return TailStep::Done(last_lines(text.as_str(), self.wanted));
        }
        let len: u64 = if self.pos < TAIL_READ_CHUNK {
            self.pos
        } else {
            TAIL_READ_CHUNK
        };
        TailStep::Read { pos: self.pos - len, len, reader: self }
    }
}

/// The last `n` lines of a text.
pub fn last_lines(s: &str, n: usize) -> (r: Vec<String>)
    ensures
        model::texts(r@) == last_of(model::lines(s@), n as nat),
{
    let cs = text::chars_of(s);
    let lines = text::lines(cs.as_slice());
    let ghost all = model::views(lines@);
    let from: usize = if lines.len() > n {
        lines.len() - n
    } else {
        0
    };
    let mut out: Vec<String> = Vec::new();
    let mut i: usize = from;
    assert(model::texts(out@) == all.subrange(from as int, from as int));
    while i < lines.len()
        invariant
            from <= i <= lines.len(),
            all == model::views(lines@),
            model::texts(out@) == all.subrange(from as int, i as int),
        decreases lines.len() - i,
    {
        let ghost before = out@;
        let line = text::string_of(lines[i]);
        out.push(line);
        assert(model::texts(out@) == model::texts(before).push(line@));
        assert(all.subrange(from as int, i + 1) == all.subrange(from as int, i as int).push(
            all[i as int],
        ));
        i = i + 1;
    }
    assert(all.subrange(from as int, i as int) == all.skip(from as int));
    assert(all.skip(0) == all);
    out
}

/// How many line feeds a text holds.
pub open spec fn text_line_feeds(s: Seq<char>) -> nat
    decreases s.len(),
{
    if s.len() == 0 {
        0
    } else {
        text_line_feeds(s.skip(1)) + if s[0] == '\n' {
            1nat
        } else {
            0
        }
    }
}

/// Each line feed ends a line.
proof fn lemma_line_feeds_bound(s: Seq<char>)
    ensures
        model::lines(s).len() >= text_line_feeds(s),
    decreases s.len(),
{
    lemmas::lemma_first(s, '\n');
    let n = model::first(s, '\n') as int;
    if s.len() > 0 {
        lemma_skip_line_feeds(s, n);
        if n < s.len() {
            lemma_line_feeds_bound(s.skip(n + 1));
            let t = s.skip(n);
            assert(t[0] == '\n');
            assert(t.skip(1) == s.skip(n + 1));
        } else {
            assert(s.skip(n) == Seq::<char>::empty());
        }
    }
}

/// Characters before the first line feed do not count.
proof fn lemma_skip_line_feeds(s: Seq<char>, n: int)
    requires
        0 <= n <= s.len(),
        forall|i: int| 0 <= i < n ==> s[i] != '\n',
    ensures
        text_line_feeds(s.skip(n)) == text_line_feeds(s),
    decreases n,
{
    if n == 0 {
        assert(s.skip(0) == s);
    } else {
        let t = s.skip(1);
        assert forall|i: int| 0 <= i < n - 1 implies t[i] != '\n' by {
            assert(t[i] == s[i + 1]);
        }
        lemma_skip_line_feeds(t, n - 1);
        assert(t.skip(n - 1) == s.skip(n));
    }
}

/// The lines after a line feed are lines of the whole.
proof fn lemma_lines_split(head: Seq<char>, tail: Seq<char>)
    ensures
        model::lines(head + seq!['\n'] + tail) == model::lines(head + seq!['\n']) + model::lines(
            tail,
        ),
    decreases head.len(),
{
    let s = head + seq!['\n'] + tail;
    let h = head + seq!['\n'];
    let n = model::first(head, '\n') as int;
    lemmas::lemma_first(head, '\n');
    if n < head.len() {
        assert forall|i: int| 0 <= i < n implies s[i] != '\n' && h[i] != '\n' by {
            assert(s[i] == head[i] && h[i] == head[i]);
        }
        assert(s[n] == '\n' && h[n] == '\n');
        lemmas::lemma_first_is(s, '\n', n as nat);
        lemmas::lemma_first_is(h, '\n', n as nat);
        let rest = head.skip(n + 1);
        assert(s.skip(n + 1) == rest + seq!['\n'] + tail);
        assert(h.skip(n + 1) == rest + seq!['\n']);
        assert(s.take(n) == head.take(n));
        assert(h.take(n) == head.take(n));
        lemma_lines_split(rest, tail);
        let line = seq![model::strip_cr(head.take(n))];
        assert(line + (model::lines(rest + seq!['\n']) + model::lines(tail)) == line
            + model::lines(rest + seq!['\n']) + model::lines(tail));
    } else {
        assert forall|i: int| 0 <= i < n implies s[i] != '\n' && h[i] != '\n' by {
            assert(s[i] == head[i] && h[i] == head[i]);
        }
        assert(s[n] == '\n' && h[n] == '\n');
        lemmas::lemma_first_is(s, '\n', n as nat);
        lemmas::lemma_first_is(h, '\n', n as nat);
        assert(s.skip(n + 1) == tail);
        assert(h.skip(n + 1) == Seq::<char>::empty());
        assert(s.take(n) == head);
        assert(h.take(n) == head);
        assert(model::lines(h.skip(n + 1)) == Seq::<Seq<char>>::empty());
        assert(seq![model::strip_cr(head)] + Seq::<Seq<char>>::empty() == seq![
            model::strip_cr(head),
        ]);
    }
}

/// The first line feed is one, and there is none before it.
proof fn lemma_first_feed(bytes: Seq<u8>)
    ensures
        line_feeds(bytes) > 0 ==> first_feed(bytes) < bytes.len(),
        first_feed(bytes) <= bytes.len(),
        first_feed(bytes) < bytes.len() ==> {
            &&& bytes[first_feed(bytes) as int] == 10
            &&& line_feeds(bytes) == 1 + line_feeds(bytes.skip(first_feed(bytes) as int + 1))
        },
    decreases bytes.len(),
{
    if bytes.len() > 0 {
        let rest = bytes.skip(1);
        lemma_feeds_sum(seq![bytes[0]], rest);
        assert(seq![bytes[0]] + rest == bytes);
        assert(seq![bytes[0]].drop_last() == Seq::<u8>::empty());
        assert(line_feeds(seq![bytes[0]].drop_last()) == 0);
        if bytes[0] != 10 {
            lemma_first_feed(rest);
            let k = first_feed(rest) as int;
            if k < rest.len() {
                assert(rest.skip(k + 1) == bytes.skip(k + 2));
            }
        }
    }
}

/// Line feeds add up.
proof fn lemma_feeds_sum(a: Seq<u8>, b: Seq<u8>)
    ensures
        line_feeds(a + b) == line_feeds(a) + line_feeds(b),
    decreases b.len(),
{
    if b.len() == 0 {
        assert(a + b == a);
    } else {
        lemma_feeds_sum(a, b.drop_last());
        assert((a + b).drop_last() == a + b.drop_last());
    }
}

/// Line feeds of a text add up.
proof fn lemma_text_feeds_sum(a: Seq<char>, b: Seq<char>)
    ensures
        text_line_feeds(a + b) == text_line_feeds(a) + text_line_feeds(b),
    decreases a.len(),
{
    if a.len() == 0 {
        assert(a + b == b);
    } else {
        lemma_text_feeds_sum(a.skip(1), b);
        assert((a + b).skip(1) == a.skip(1) + b);
    }
}

/// A line feed in UTF-8 is a character of its own.
proof fn lemma_decode_at_feed(bytes: Seq<u8>, k: int)
    requires
        vstd::utf8::valid_utf8(bytes),
        0 <= k < bytes.len(),
        bytes[k] == 10,
    ensures
        vstd::utf8::valid_utf8(bytes.take(k)),
        vstd::utf8::valid_utf8(bytes.skip(k + 1)),
        vstd::utf8::decode_utf8(bytes) == vstd::utf8::decode_utf8(bytes.take(k)) + seq!['\n']
            + vstd::utf8::decode_utf8(bytes.skip(k + 1)),
{
    assert(!vstd::utf8::is_continuation_byte(10)) by (bit_vector);
    assert(vstd::utf8::is_leading_byte_width_1(10)) by (bit_vector);
    vstd::utf8::is_char_boundary_iff_not_is_continuation_byte(bytes, k);
    vstd::utf8::valid_utf8_split(bytes, k);
    vstd::utf8::decode_utf8_split(bytes, k);
    assert(bytes.subrange(0, k) == bytes.take(k));
    let rest = bytes.subrange(k, bytes.len() as int);
    assert(rest[0] == 10);
    assert(vstd::utf8::pop_first_scalar(rest) == bytes.skip(k + 1));
    assert(vstd::utf8::codepoint_width_1(10) == 10) by (bit_vector);
    assert(vstd::utf8::decode_utf8(rest) == seq!['\n'] + vstd::utf8::decode_utf8(
        bytes.skip(k + 1),
    ));
}

/// A text has the line feeds of its bytes.
proof fn lemma_decoded_feeds(bytes: Seq<u8>)
    requires
        vstd::utf8::valid_utf8(bytes),
    ensures
        text_line_feeds(vstd::utf8::decode_utf8(bytes)) >= line_feeds(bytes),
    decreases bytes.len(),
{
    lemma_first_feed(bytes);
    let k = first_feed(bytes) as int;
    if k < bytes.len() {
        lemma_decode_at_feed(bytes, k);
        let rest = bytes.skip(k + 1);
        lemma_decoded_feeds(rest);
        let before = vstd::utf8::decode_utf8(bytes.take(k));
        let after = vstd::utf8::decode_utf8(rest);
        lemma_text_feeds_sum(before + seq!['\n'], after);
        lemma_text_feeds_sum(before, seq!['\n']);
        assert(seq!['\n'].skip(1) == Seq::<char>::empty());
        assert(text_line_feeds(seq!['\n'].skip(1)) == 0);
    }
}

/// Where a file is UTF-8, the lines that a read comes to are the last lines of the whole
/// file, wherever the read stopped.
pub proof fn law_tail_is_that_of_the_file(file: Seq<u8>, v: TailView)
    requires
        vstd::utf8::valid_utf8(file),
        v.pos <= file.len(),
        v.buf == file.skip(v.pos as int),
        v.covers(),
    ensures
        vstd::utf8::valid_utf8(v.kept()),
        v.utf8_lines() == last_of(model::lines(vstd::utf8::decode_utf8(file)), v.wanted),
{
    if v.pos == 0 {
        assert(v.buf == file);
    } else {
        lemma_first_feed(v.buf);
        let k = first_feed(v.buf) as int;
        let at = v.pos + k;
        assert(file[at] == 10);
        lemma_decode_at_feed(file, at);
        assert(file.skip(at + 1) == v.kept());
        let before = vstd::utf8::decode_utf8(file.take(at));
        let after = vstd::utf8::decode_utf8(v.kept());
        lemma_decoded_feeds(v.kept());
        lemma_line_feeds_bound(after);
        lemma_lines_split(before, after);
        lemma_last_of_sum(model::lines(before + seq!['\n']), model::lines(after), v.wanted);
    }
}

/// The last ones of a sum are those of its second part, where that has enough.
proof fn lemma_last_of_sum(a: Seq<Seq<char>>, t: Seq<Seq<char>>, n: nat)
    requires
        t.len() >= n,
    ensures
        last_of(a + t, n) == last_of(t, n),
{
    let s = a + t;
    if s.len() > n {
        assert(s.skip(s.len() - n) == t.skip(t.len() - n));
        if t.len() == n {
            assert(t.skip(0) == t);
        }
    } else {
        assert(s == t);
    }
}

/// The bytes that a read has are those of the file from its place to the end.
pub open spec fn holds_end(file: Seq<u8>, v: TailView) -> bool {
    v.pos <= file.len() && v.buf == file.skip(v.pos as int)
}

/// The lines are the last `n` lines of the text, or all where there are fewer.
pub open spec fn are_last_lines(lines: Seq<Seq<char>>, text: Seq<char>, n: nat) -> bool {
    let all = model::lines(text);
    &&& lines.len() == (if all.len() < n {
        all.len()
    } else {
        n
    })
    &&& forall|i: int|
        0 <= i < lines.len() ==> #[trigger] lines[i] == all[all.len() - lines.len() + i]
}

/// Whatever a step of a read leads to: where it is done, it has the last lines of the whole
/// file, and where it is not, it asks for the piece of the file right before what it has, of
/// at most 8192 bytes, and none of what it has is lost.
pub proof fn law_tail_steps(
    file: Seq<u8>,
    reader: TailReader,
    chunk: Vec<u8>,
    r: TailStep,
)
    requires
        vstd::utf8::valid_utf8(file),
        file.len() <= u64::MAX,
        holds_end(file, reader@),
        chunk@.len() <= reader@.pos,
        chunk@ == file.subrange(reader@.pos - chunk@.len(), reader@.pos as int),
        call_ensures(TailReader::feed, (reader, chunk), r),
    ensures
        match r {
            TailStep::Done(lines) => are_last_lines(
                model::texts(lines@),
                vstd::utf8::decode_utf8(file),
                reader@.wanted,
            ),
            TailStep::Read { pos, len, reader: next } => {
                &&& holds_end(file, next@)
                &&& next@.wanted == reader@.wanted
                &&& next@.pos == reader@.pos - chunk@.len()
                &&& 0 < len <= 8192
                &&& pos + len == next@.pos
            },
        },
{
    let v = TailView {
        wanted: reader@.wanted,
        pos: (reader@.pos - chunk@.len()) as u64,
        buf: chunk@ + reader@.buf,
    };
    assert(v.buf == file.skip(v.pos as int));
    if let TailStep::Done(lines) = r {
        law_tail_is_that_of_the_file(file, v);
        lemma_last_of(model::lines(vstd::utf8::decode_utf8(file)), reader@.wanted);
    }
}

/// A read starts at the end of the file; no lines are had without reading, and so are those
/// of an empty file.
pub proof fn law_tail_starts(file: Seq<u8>, n: usize, r: TailStep)
    requires
        vstd::utf8::valid_utf8(file),
        file.len() <= u64::MAX,
        call_ensures(TailReader::start, (file.len() as u64, n), r),
    ensures
        match r {
            TailStep::Done(lines) => are_last_lines(
                model::texts(lines@),
                vstd::utf8::decode_utf8(file),
                n as nat,
            ),
            TailStep::Read { pos, len, reader } => {
                &&& n > 0
                &&& holds_end(file, reader@)
                &&& reader@.wanted == n
                &&& reader@.pos == file.len()
                &&& 0 < len <= 8192
                &&& pos + len == file.len()
            },
        },
{
    let v = TailView { wanted: n as nat, pos: file.len() as u64, buf: Seq::empty() };
    assert(file.skip(file.len() as int) == Seq::<u8>::empty());
    if let TailStep::Done(lines) = r {
        if n > 0 {
            law_tail_is_that_of_the_file(file, v);
        } else {
            assert(model::texts(lines@).len() == 0);
        }
        lemma_last_of(model::lines(vstd::utf8::decode_utf8(file)), n as nat);
    }
}

/// Where the last ones stand.
proof fn lemma_last_of(all: Seq<Seq<char>>, n: nat)
    ensures
        last_of(all, n).len() == (if all.len() < n {
            all.len()
        } else {
            n
        }),
        forall|i: int|
            0 <= i < last_of(all, n).len() ==> #[trigger] last_of(all, n)[i] == all[all.len()
                - last_of(all, n).len() + i],
{
}

/// The last lines of a text.
pub proof fn law_last_lines(s: &str, n: usize, r: Vec<String>)
    requires
        call_ensures(last_lines, (s, n), r),
    ensures
        are_last_lines(model::texts(r@), s@, n as nat),
{
    lemma_last_of(model::lines(s@), n as nat);
}

} // verus!
