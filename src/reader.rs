//! The line reader: turns chunks of the console's byte stream into lines.
use vstd::prelude::*;

use bytes::BytesMut;

verus! {

/// The newline byte that ends each line.
pub const NEWLINE: u8 = 10;

/// The capacity of each chunk read from the stream.
pub const BUF_SIZE: usize = 5012;

/// The byte buffer of the `bytes` crate that chunks of the stream are read into;
/// what it holds is `bytes_contents`.
#[verifier::external_type_specification]
#[verifier::external_body]
pub struct ExBytesMut(BytesMut);

/// The bytes a `BytesMut` holds.
pub uninterp spec fn bytes_contents(b: BytesMut) -> Seq<u8>;

/// What `String::from_utf8_lossy` makes of some bytes.
pub uninterp spec fn lossy_utf8(b: Seq<u8>) -> Seq<char>;

/// Relies on `BytesMut::len`: the number of bytes the buffer holds.
#[verifier::external_body]
fn bytes_len(b: &BytesMut) -> (r: usize)
    ensures
        r == bytes_contents(*b).len(),
{
    b.len()
}

/// Relies on `BytesMut` dereferencing to the slice of the bytes it holds.
#[verifier::external_body]
fn byte_at(b: &BytesMut, i: usize) -> (r: u8)
    requires
        i < bytes_contents(*b).len(),
    ensures
        r == bytes_contents(*b)[i as int],
{
    b[i]
}

/// Relies on `String::from_utf8_lossy`: the text depends on the bytes alone,
/// and no bytes give no text.
#[verifier::external_body]
fn decode_lossy(b: &[u8]) -> (r: String)
    ensures
        r@ == lossy_utf8(b@),
        b@.len() == 0 ==> r@.len() == 0,
{
    String::from_utf8_lossy(b).into_owned()
}

/// The first newline at or after `i`.
pub open spec fn newline_from(s: Seq<u8>, i: int) -> Option<int>
    decreases s.len() - i,
{
    if i < 0 || i >= s.len() {
        None
    } else if s[i] == NEWLINE {
        Some(i)
    } else {
        newline_from(s, i + 1)
    }
}

pub open spec fn first_newline(s: Seq<u8>) -> Option<int> {
    newline_from(s, 0)
}

pub open spec fn no_newline(s: Seq<u8>) -> bool {
    forall|i: int| 0 <= i < s.len() ==> #[trigger] s[i] != NEWLINE
}

/// The complete lines of `s`, without their newlines; a last line without a
/// newline is not complete yet.
pub open spec fn lines_of(s: Seq<u8>) -> Seq<Seq<u8>>
    decreases s.len(),
{
    match first_newline(s) {
        Some(k) => if 0 <= k < s.len() {
            seq![s.subrange(0, k)] + lines_of(s.subrange(k + 1, s.len() as int))
        } else {
            Seq::empty()
        },
        None => Seq::empty(),
    }
}

/// The lines of `s`, as text.
pub open spec fn text_lines_of(s: Seq<u8>) -> Seq<Seq<char>> {
    lines_of(s).map_values(|l: Seq<u8>| lossy_utf8(l))
}

pub proof fn lemma_newline_from_found(s: Seq<u8>, i: int, k: int)
    requires
        0 <= i <= k < s.len(),
        s[k] == NEWLINE,
        forall|j: int| i <= j < k ==> #[trigger] s[j] != NEWLINE,
    ensures
        newline_from(s, i) == Some(k),
    decreases k - i,
{
    if i < k {
        lemma_newline_from_found(s, i + 1, k);
    }
}

pub proof fn lemma_newline_from_none(s: Seq<u8>, i: int)
    requires
        0 <= i,
        forall|j: int| i <= j < s.len() ==> #[trigger] s[j] != NEWLINE,
    ensures
        newline_from(s, i) is None,
    decreases s.len() - i,
{
    if i < s.len() {
        lemma_newline_from_none(s, i + 1);
    }
}

/// One chunk read from the stream; `data[start..end]` is still unread.
#[derive(Debug)]
pub struct Buffer {
    data: BytesMut,
    start: usize,
    end: usize,
}

impl View for Buffer {
    type V = Seq<u8>;

    closed spec fn view(&self) -> Seq<u8> {
        bytes_contents(self.data).subrange(self.start as int, self.end as int)
    }
}

impl Buffer {
    pub closed spec fn wf(&self) -> bool {
        self.start <= self.end <= bytes_contents(self.data).len()
    }

    /// A buffer whose bytes are all unread.
    pub fn new(data: BytesMut) -> (r: Buffer)
        ensures
            r.wf(),
            r@ == bytes_contents(data),
    {
        let end = bytes_len(&data);
        let r = Buffer { data, start: 0, end };
        assert(r@ =~= bytes_contents(data));
        r
    }
}

/// The unread bytes of a queue of buffers, in order.
pub open spec fn queued(bs: Seq<Buffer>) -> Seq<u8>
    decreases bs.len(),
{
    if bs.len() == 0 {
        Seq::empty()
    } else {
        bs[0]@ + queued(bs.subrange(1, bs.len() as int))
    }
}

/// Copies `b[lo..hi]` onto the end of `out`.
fn append_range(out: &mut Vec<u8>, b: &BytesMut, lo: usize, hi: usize)
    requires
        lo <= hi <= bytes_contents(*b).len(),
    ensures
        final(out)@ == old(out)@ + bytes_contents(*b).subrange(lo as int, hi as int),
{
    let mut i: usize = lo;
    while i < hi
        invariant
            lo <= i <= hi <= bytes_contents(*b).len(),
            out@ == old(out)@ + bytes_contents(*b).subrange(lo as int, i as int),
        decreases hi - i,
    {
        out.push(byte_at(b, i));
        i = i + 1;
        assert(out@ =~= old(out)@ + bytes_contents(*b).subrange(lo as int, i as int));
    }
}

/// Reads lines that may span any number of chunks.
pub struct LineReader {
    buffers: std::collections::VecDeque<Buffer>,
    partial: Vec<u8>,
}

impl View for LineReader {
    type V = Seq<u8>;

    /// The bytes received and not yet handed out as part of a line.
    closed spec fn view(&self) -> Seq<u8> {
        self.partial@ + queued(self.buffers@)
    }
}

impl LineReader {
    pub closed spec fn wf(&self) -> bool {
        &&& forall|i: int| 0 <= i < self.buffers@.len() ==> (#[trigger] self.buffers@[i]).wf()
        &&& no_newline(self.partial@)
    }

    pub fn new() -> (r: LineReader)
        ensures
            r.wf(),
            r@.len() == 0,
    {
        let r = LineReader { buffers: std::collections::VecDeque::new(), partial: Vec::new() };
        assert(r@ =~= Seq::<u8>::empty());
        r
    }

    /// Queues a chunk read from the stream; an empty chunk changes nothing.
    pub fn push_buffer(&mut self, data: BytesMut)
        requires
            old(self).wf(),
        ensures
            final(self).wf(),
            final(self)@ == old(self)@ + bytes_contents(data),
    {
        let b = Buffer::new(data);
        if b.end == 0 {
            assert(self@ =~= old(self)@ + bytes_contents(data));
            return;
        }
        let ghost before = self.buffers@;
        self.buffers.push_back(b);
        proof {
            lemma_queued_push(before, b);
        }
        assert(self@ =~= old(self)@ + bytes_contents(data));
    }

    /// The next complete line, without its newline, decoded leniently: bytes
    /// that are not UTF-8 become replacement characters. `None`: no complete
    /// line has arrived yet, and nothing is consumed.
    pub fn read_line(&mut self) -> (r: Option<String>)
        requires
            old(self).wf(),
        ensures
            final(self).wf(),
            match first_newline(old(self)@) {
                Some(k) => r matches Some(line) && 0 <= k < old(self)@.len() && line@
                    == lossy_utf8(old(self)@.subrange(0, k)) && final(self)@ == old(self)@.subrange(
                    k + 1,
                    old(self)@.len() as int,
                ),
                None => r is None && final(self)@ == old(self)@,
            },
    {
        loop
            invariant
                self.wf(),
                self@ == old(self)@,
            decreases self.buffers@.len(),
        {
            let ghost bs = self.buffers@;
            let buffer = match self.buffers.pop_front() {
                Some(b) => b,
                None => {
                    proof {
                        assert(self@ =~= self.partial@);
                        lemma_newline_from_none(self@, 0);
                    }
                    return None;
                },
            };
            assert(bs[0].wf());
            assert(queued(bs) == buffer@ + queued(self.buffers@));
            let mut p: usize = buffer.start;
            while p < buffer.end
                invariant
                    buffer.wf(),
                    buffer.start <= p <= buffer.end,
                    forall|j: int|
                        buffer.start <= j < p ==> #[trigger] bytes_contents(buffer.data)[j]
                            != NEWLINE,
                ensures
                    buffer.start <= p <= buffer.end,
                    forall|j: int|
                        buffer.start <= j < p ==> #[trigger] bytes_contents(buffer.data)[j]
                            != NEWLINE,
                    p < buffer.end ==> bytes_contents(buffer.data)[p as int] == NEWLINE,
                decreases buffer.end - p,
            {
                if byte_at(&buffer.data, p) == NEWLINE {
                    break;
                }
                p = p + 1;
            }
            let ghost part = self.partial@;
            let ghost rest_q = queued(self.buffers@);
            let ghost whole = old(self)@;
            if p < buffer.end {
                append_range(&mut self.partial, &buffer.data, buffer.start, p);
                let line = decode_lossy(self.partial.as_slice());
                self.partial = Vec::new();
                let next = Buffer { data: buffer.data, start: p + 1, end: buffer.end };
                let ghost tail = self.buffers@;
                self.buffers.push_front(next);
                proof {
                    let k = part.len() + (p - buffer.start);
                    assert(whole == part + buffer@ + rest_q);
                    assert(buffer@[p - buffer.start] == NEWLINE);
                    assert(whole[k] == NEWLINE);
                    assert forall|j: int| 0 <= j < k implies #[trigger] whole[j] != NEWLINE by {
                        if j < part.len() {
                            assert(whole[j] == part[j]);
                        } else {
                            assert(whole[j] == bytes_contents(buffer.data)[buffer.start + (j
                                - part.len())]);
                        }
                    }
                    lemma_newline_from_found(whole, 0, k);
                    assert(line@ == lossy_utf8(whole.subrange(0, k))) by {
                        assert(whole.subrange(0, k) =~= part + bytes_contents(
                            buffer.data,
                        ).subrange(buffer.start as int, p as int));
                    }
                    assert(queued(self.buffers@) == next@ + queued(tail)) by {
                        assert(self.buffers@.subrange(1, self.buffers@.len() as int) =~= tail);
                    }
                    assert(self@ =~= whole.subrange(k + 1, whole.len() as int));
                    assert forall|i: int| 0 <= i < self.buffers@.len() implies (
                    #[trigger] self.buffers@[i]).wf() by {
                        if i > 0 {
                            assert(self.buffers@[i] == tail[i - 1]);
                        }
                    }
                    assert(self.partial@ =~= Seq::<u8>::empty());
                }
                return Some(line);
            }
            append_range(&mut self.partial, &buffer.data, buffer.start, buffer.end);
            proof {
                assert(self@ =~= whole);
                assert forall|i: int| 0 <= i < self.buffers@.len() implies (
                #[trigger] self.buffers@[i]).wf() by {
                    assert(self.buffers@[i] == bs[i + 1]);
                }
                assert forall|j: int| 0 <= j < self.partial@.len() implies #[trigger] self.partial@[j]
                    != NEWLINE by {
                    if j >= part.len() {
                        assert(self.partial@[j] == bytes_contents(buffer.data)[buffer.start + (j
                            - part.len())]);
                    }
                }
            }
        }
    }
}

pub proof fn lemma_queued_push(bs: Seq<Buffer>, b: Buffer)
    ensures
        queued(bs.push(b)) == queued(bs) + b@,
    decreases bs.len(),
{
    if bs.len() == 0 {
        let s1 = bs.push(b);
        assert(s1.subrange(1, 1) =~= Seq::<Buffer>::empty());
        assert(queued(s1.subrange(1, 1)) == Seq::<u8>::empty());
        assert(s1[0] == b);
        assert(queued(s1) =~= queued(bs) + b@);
    } else {
        lemma_queued_push(bs.subrange(1, bs.len() as int), b);
        assert(bs.push(b).subrange(1, bs.len() + 1 as int) =~= bs.subrange(1, bs.len() as int).push(b));
        assert(queued(bs.push(b)) =~= queued(bs) + b@);
    }
}

pub proof fn lemma_newline_from_spec(s: Seq<u8>, i: int)
    requires
        0 <= i,
    ensures
        match newline_from(s, i) {
            Some(k) => i <= k < s.len() && s[k] == NEWLINE && forall|j: int|
                i <= j < k ==> #[trigger] s[j] != NEWLINE,
            None => forall|j: int| i <= j < s.len() ==> #[trigger] s[j] != NEWLINE,
        },
    decreases s.len() - i,
{
    if i < s.len() && s[i] != NEWLINE {
        lemma_newline_from_spec(s, i + 1);
    }
}

pub open spec fn ends_line(s: Seq<u8>) -> bool {
    s.len() == 0 || s[s.len() - 1] == NEWLINE
}

/// Bytes that end where a line ends split into lines apart from what follows.
pub proof fn lemma_lines_concat(x: Seq<u8>, y: Seq<u8>)
    requires
        ends_line(x),
    ensures
        lines_of(x + y) == lines_of(x) + lines_of(y),
    decreases x.len(),
{
    if x.len() == 0 {
        assert(x + y =~= y);
        assert(lines_of(x) =~= Seq::<Seq<u8>>::empty());
        assert(lines_of(x) + lines_of(y) =~= lines_of(y));
    } else {
        let xy = x + y;
        lemma_newline_from_spec(x, 0);
        lemma_newline_from_spec(xy, 0);
        let k = first_newline(x)->0;
        assert(first_newline(x) is Some) by {
            if first_newline(x) is None {
                assert(x[x.len() - 1] != NEWLINE);
            }
        }
        assert(first_newline(xy) == Some(k)) by {
            assert(xy[k] == NEWLINE);
            assert forall|j: int| 0 <= j < k implies #[trigger] xy[j] != NEWLINE by {
                assert(xy[j] == x[j]);
            }
            lemma_newline_from_found(xy, 0, k);
        }
        let xr = x.subrange(k + 1, x.len() as int);
        assert(ends_line(xr));
        lemma_lines_concat(xr, y);
        assert(xy.subrange(0, k) =~= x.subrange(0, k));
        assert(xy.subrange(k + 1, xy.len() as int) =~= xr + y);
        assert(lines_of(xy) == seq![x.subrange(0, k)] + lines_of(xr + y));
        assert(lines_of(x) == seq![x.subrange(0, k)] + lines_of(xr));
        assert(lines_of(xy) =~= lines_of(x) + lines_of(y));
    }
}

/// The bytes of chunks, one after another.
pub open spec fn flatten(cs: Seq<Seq<u8>>) -> Seq<u8>
    decreases cs.len(),
{
    if cs.len() == 0 {
        Seq::empty()
    } else {
        flatten(cs.subrange(0, cs.len() - 1)) + cs[cs.len() - 1]
    }
}

pub open spec fn chunks_view(cs: Seq<BytesMut>) -> Seq<Seq<u8>> {
    cs.map_values(|b: BytesMut| bytes_contents(b))
}

pub open spec fn strings_view(v: Seq<String>) -> Seq<Seq<char>> {
    v.map_values(|s: String| s@)
}

/// Every complete line of a stream that arrives in `chunks`, in order.
pub fn read_lines(chunks: Vec<BytesMut>) -> (r: Vec<String>)
    ensures
        strings_view(r@) == text_lines_of(flatten(chunks_view(chunks@))),
{
    let ghost all = chunks_view(chunks@);
    let n = chunks.len();
    let mut chunks = chunks;
    let mut reader = LineReader::new();
    let mut out: Vec<String> = Vec::new();
    let ghost mut consumed: Seq<u8> = Seq::empty();
    let ghost mut raw: Seq<Seq<u8>> = Seq::empty();
    let mut i: usize = 0;
    assert(flatten(all.subrange(0, 0)) == Seq::<u8>::empty());
    assert(consumed + reader@ =~= Seq::<u8>::empty());
    assert(lines_of(consumed) =~= raw);
    assert(first_newline(reader@) is None);
    assert(all.subrange(0, n as int) =~= all);
    while i < n
        invariant
            n == all.len(),
            i <= n,
            chunks_view(chunks@) == all.subrange(i as int, n as int),
            reader.wf(),
            flatten(all.subrange(0, i as int)) == consumed + reader@,
            ends_line(consumed),
            lines_of(consumed) == raw,
            strings_view(out@) == raw.map_values(|l: Seq<u8>| lossy_utf8(l)),
            first_newline(reader@) is None,
        decreases n - i,
    {
        assert(chunks_view(chunks@).len() == chunks@.len());
        assert(chunks_view(chunks@)[0] == bytes_contents(chunks@[0]));
        assert(all.subrange(i as int, n as int)[0] == all[i as int]);
        let ghost rest = chunks@;
        let chunk = chunks.remove(0);
        assert(bytes_contents(chunk) == all[i as int]);
        reader.push_buffer(chunk);
        proof {
            assert(all.subrange(0, i + 1).subrange(0, i as int) =~= all.subrange(0, i as int));
            assert(flatten(all.subrange(0, i + 1)) == flatten(all.subrange(0, i as int)) + all[i as int]);
            assert(flatten(all.subrange(0, i + 1)) =~= consumed + reader@);
            assert(chunks@ =~= rest.subrange(1, rest.len() as int));
            assert forall|j: int| 0 <= j < n - i - 1 implies chunks_view(chunks@)[j] == all[i + 1
                + j] by {
                assert(chunks@[j] == rest[j + 1]);
                assert(chunks_view(rest)[j + 1] == bytes_contents(rest[j + 1]));
                assert(all.subrange(i as int, n as int)[j + 1] == all[i + 1 + j]);
            }
            assert(chunks_view(chunks@) =~= all.subrange(i + 1, n as int));
        }
        loop
            invariant
                i < n,
                n == all.len(),
                reader.wf(),
                flatten(all.subrange(0, i + 1)) == consumed + reader@,
                ends_line(consumed),
                lines_of(consumed) == raw,
                strings_view(out@) == raw.map_values(|l: Seq<u8>| lossy_utf8(l)),
            ensures
                reader.wf(),
                flatten(all.subrange(0, i + 1)) == consumed + reader@,
                ends_line(consumed),
                lines_of(consumed) == raw,
                strings_view(out@) == raw.map_values(|l: Seq<u8>| lossy_utf8(l)),
                first_newline(reader@) is None,
            decreases reader@.len(),
        {
            let ghost before = reader@;
            match reader.read_line() {
                Some(line) => {
                    let ghost k = first_newline(before)->0;
                    proof {
                        let piece = before.subrange(0, k + 1);
                        lemma_newline_from_spec(before, 0);
                        lemma_lines_concat(consumed, piece);
                        lemma_newline_from_spec(piece, 0);
                        assert(piece[k] == NEWLINE);
                        lemma_newline_from_found(piece, 0, k);
                        assert(piece.subrange(0, k) =~= before.subrange(0, k));
                        assert(piece.subrange(k + 1, piece.len() as int) =~= Seq::<u8>::empty());
                        assert(lines_of(Seq::<u8>::empty()) =~= Seq::<Seq<u8>>::empty());
                        assert(lines_of(piece) =~= seq![before.subrange(0, k)]);
                        assert(before =~= piece + reader@);
                        consumed = consumed + piece;
                        raw = raw.push(before.subrange(0, k));
                    }
                    let ghost prev = out@;
                    out.push(line);
                    assert(line@ == lossy_utf8(before.subrange(0, k)));
                    assert(strings_view(out@) =~= strings_view(prev).push(line@));
                    assert(strings_view(out@) =~= raw.map_values(|l: Seq<u8>| lossy_utf8(l)));
                },
                None => {
                    break;
                },
            }
        }
        i = i + 1;
    }
    proof {
        assert(all.subrange(0, n as int) =~= all);
        lemma_lines_concat(consumed, reader@);
        assert(lines_of(reader@) =~= Seq::<Seq<u8>>::empty());
        assert(strings_view(out@) =~= text_lines_of(flatten(all)));
    }
    out
}

/// Chunk boundaries do not matter: a stream cut into any chunks yields the same
/// lines as the same bytes in a single chunk.
pub proof fn lemma_chunk_boundaries(chunks: Seq<Seq<u8>>)
    ensures
        text_lines_of(flatten(chunks)) == text_lines_of(flatten(seq![flatten(chunks)])),
{
    let one = seq![flatten(chunks)];
    assert(one.subrange(0, 0) =~= Seq::<Seq<u8>>::empty());
    assert(flatten(one.subrange(0, 0)) == Seq::<u8>::empty());
    assert(flatten(one) =~= flatten(chunks));
}

} // verus!
