//! A response and the reading of its body.

use crate::decimal::{parse, parse_unsigned};
use crate::fields::{first_value, Entry, Fields};
use vstd::prelude::*;
use vstd::utf8::{decode_utf8, valid_utf8};

verus! {

/// The bytes of a list of chunks, one chunk after the other.
pub open spec fn concat(chunks: Seq<Seq<u8>>) -> Seq<u8>
    decreases chunks.len(),
{
    if chunks.len() == 0 {
        Seq::empty()
    } else {
        chunks[0] + concat(chunks.skip(1))
    }
}

/// The smaller of two numbers.
pub open spec fn least(a: nat, b: nat) -> nat {
    if a <= b {
        a
    } else {
        b
    }
}

/// What one read of at most `len` bytes hands out of a stream that still
/// holds `pending`: the start of the first chunk.
pub open spec fn read_data(pending: Seq<Seq<u8>>, len: nat) -> Seq<u8> {
    pending[0].take(least(len, pending[0].len()) as int)
}

/// What a stream that held `pending` holds after one read of at most `len`
/// bytes: the rest of the first chunk, if any of it is left, and the chunks
/// behind it.
pub open spec fn read_rest(pending: Seq<Seq<u8>>, len: nat) -> Seq<Seq<u8>> {
    if len >= pending[0].len() {
        pending.skip(1)
    } else {
        seq![pending[0].skip(len as int)] + pending.skip(1)
    }
}

/// The bytes `full`, cut off at the ceiling where there is one.
pub open spec fn cut(ceiling: Option<u64>, full: Seq<u8>) -> Seq<u8> {
    match ceiling {
        Some(n) => full.take(least(n as nat, full.len()) as int),
        None => full,
    }
}

/// The body that is read from a stream under a ceiling: all its bytes, cut
/// off at the ceiling where there is one.
pub open spec fn body_under(ceiling: Option<u64>, pending: Seq<Seq<u8>>) -> Seq<u8> {
    cut(ceiling, concat(pending))
}

/// The ceiling that a response's headers declare: the first
/// `Content-Length`, where it is an unsigned number.
pub open spec fn read_ceiling(headers: Seq<Entry>) -> Option<u64> {
    match first_value(headers, "Content-Length"@) {
        Some(value) => parse_unsigned(value),
        None => None,
    }
}

/// A read hands out the first bytes of what the stream holds and leaves the
/// rest.
pub proof fn lemma_read_splits(pending: Seq<Seq<u8>>, len: nat)
    requires
        pending.len() > 0,
    ensures
        concat(pending) == read_data(pending, len) + concat(read_rest(pending, len)),
        read_data(pending, len).len() <= len,
{
    let front = pending[0];
    if len >= front.len() {
        assert(front.take(front.len() as int) =~= front);
    } else {
        let rest = read_rest(pending, len);
        assert(rest.skip(1) =~= pending.skip(1));
        assert(rest[0] == front.skip(len as int));
        assert(concat(rest) == front.skip(len as int) + concat(pending.skip(1)));
        assert(front.take(len as int) + (front.skip(len as int) + concat(pending.skip(1)))
            =~= front + concat(pending.skip(1)));
    }
}

/// Without a declared ceiling the body is every chunk that the stream
/// handed out before it closed, in order.
pub proof fn lemma_unbounded_body(headers: Seq<Entry>, a: Seq<u8>, b: Seq<u8>, c: Seq<u8>)
    requires
        first_value(headers, "Content-Length"@) is None,
    ensures
        body_under(read_ceiling(headers), seq![a, b, c]) == a + b + c,
{
    let chunks = seq![a, b, c];
    assert(chunks.skip(1) =~= seq![b, c]);
    assert(seq![b, c].skip(1) =~= seq![c]);
    assert(seq![c].skip(1) =~= Seq::<Seq<u8>>::empty());
    assert(concat(Seq::<Seq<u8>>::empty()) =~= Seq::<u8>::empty());
    assert(seq![c][0] == c);
    assert(concat(seq![c]) =~= c);
    assert(seq![b, c][0] == b);
    assert(concat(seq![b, c]) =~= b + c);
    assert(concat(chunks) =~= a + b + c);
}

/// A body of exactly the declared length is read whole: the result has
/// that length and holds the stream's bytes in order.
pub proof fn lemma_declared_body(headers: Seq<Entry>, pending: Seq<Seq<u8>>, n: u64)
    requires
        first_value(headers, "Content-Length"@) == Some(crate::decimal::decimal(n as nat)),
        concat(pending).len() == n,
    ensures
        body_under(read_ceiling(headers), pending) == concat(pending),
        body_under(read_ceiling(headers), pending).len() == n,
{
    crate::decimal::lemma_parse_decimal(n);
    assert(concat(pending).take(n as int) =~= concat(pending));
}

/// The body does not depend on how the stream cuts its bytes into chunks.
pub proof fn lemma_chunking_unseen(
    ceiling: Option<u64>,
    pending: Seq<Seq<u8>>,
    other: Seq<Seq<u8>>,
)
    requires
        concat(pending) == concat(other),
    ensures
        body_under(ceiling, pending) == body_under(ceiling, other),
{
}

/// A body stream held in memory: the chunks that its reads will hand out
/// before it closes.
#[derive(Debug)]
pub struct InputStream {
    chunks: Vec<Vec<u8>>,
    index: usize,
    offset: usize,
}

impl View for InputStream {
    type V = Seq<Seq<u8>>;

    /// The chunks that are still to be read.
    closed spec fn view(&self) -> Seq<Seq<u8>> {
        if self.index >= self.chunks@.len() {
            Seq::empty()
        } else {
            let front = self.chunks@[self.index as int]@;
            let start = least(self.offset as nat, front.len());
            seq![front.skip(start as int)] + self.chunks@.skip(self.index + 1).map_values(
                |c: Vec<u8>| c@,
            )
        }
    }
}

impl InputStream {
    /// A stream that hands out `chunks` in order and then closes.
    pub fn from_chunks(chunks: Vec<Vec<u8>>) -> (r: Self)
        ensures
            r@ == chunks@.map_values(|c: Vec<u8>| c@),
    {
        let r = InputStream { chunks, index: 0, offset: 0 };
        proof {
            let all = chunks@.map_values(|c: Vec<u8>| c@);
            if chunks@.len() > 0 {
                assert(chunks@[0]@.skip(0) =~= chunks@[0]@);
                assert(r@ =~= all);
            } else {
                assert(r@ =~= all);
            }
        }
        r
    }

    /// Reads at most `len` bytes. A stream that holds no further chunk has
    /// closed and gives `None`.
    pub fn blocking_read(&mut self, len: u64) -> (r: Option<Vec<u8>>)
        ensures
            old(self)@.len() == 0 ==> r is None && final(self)@ == old(self)@,
            old(self)@.len() > 0 ==> r is Some && r->Some_0@ == read_data(old(self)@, len as nat)
                && final(self)@ == read_rest(old(self)@, len as nat) && old(self)@[0].len()
                <= usize::MAX,
    {
        if self.index >= self.chunks.len() {
            return None;
        }
        let ghost pending = self@;
        let chunk = &self.chunks[self.index];
        let size: usize = chunk.len();
        let start: usize = if self.offset <= size {
            self.offset
        } else {
            size
        };
        let left: usize = size - start;
        let take: usize = if len >= left as u64 {
            left
        } else {
            len as usize
        };
        let mut data: Vec<u8> = Vec::new();
        let mut i: usize = 0;
        while i < take
            invariant
                i <= take,
                start + take <= size,
                size == chunk@.len(),
                data@ == chunk@.subrange(start as int, start + i),
            decreases take - i,
        {
            data.push(chunk[start + i]);
            assert(chunk@.subrange(start as int, start + i + 1) =~= chunk@.subrange(
                start as int,
                start + i,
            ).push(chunk@[start + i]));
            i = i + 1;
        }
        let ghost tail = self.chunks@.skip(self.index + 1).map_values(|c: Vec<u8>| c@);
        proof {
            assert(pending[0] == chunk@.skip(start as int));
            assert(pending.skip(1) =~= tail);
            assert(data@ =~= read_data(pending, len as nat));
        }
        if take == left {
            if self.index + 1 < self.chunks.len() {
                proof {
                    let next = self.chunks@[self.index + 1]@;
                    assert(tail[0] == next);
                    assert(next.skip(0) =~= next);
                    assert(self.chunks@.skip(self.index + 2).map_values(|c: Vec<u8>| c@)
                        =~= tail.skip(1));
                }
            }
            self.index = self.index + 1;
            self.offset = 0;
            assert(self@ =~= read_rest(pending, len as nat));
        } else {
            self.offset = start + take;
            proof {
                assert(chunk@.skip(start + take) =~= chunk@.skip(start as int).skip(take as int));
                assert(self@ =~= read_rest(pending, len as nat));
            }
        }
        Some(data)
    }
}

/// The reading of a body under way, as contracts see it.
pub struct ReaderView {
    /// The ceiling under which the body is read.
    pub ceiling: Option<u64>,
    /// The bytes read so far.
    pub full: Seq<u8>,
    /// Whether reading has ended.
    pub done: bool,
}

/// How many bytes the next read may ask for: what is left under the
/// ceiling, or as many as a read can ask for where there is no ceiling.
pub open spec fn bound_of(reader: ReaderView) -> u64 {
    match reader.ceiling {
        Some(n) => if reader.full.len() <= n {
            (n - reader.full.len()) as u64
        } else {
            0
        },
        None => u64::MAX,
    }
}

/// The reading after one read came back. A read that failed ends it. The
/// bytes of any other are added, as far as the bound allows; it ends the
/// reading where the bound was zero, since no further read could bring a
/// byte.
pub open spec fn after_read(reader: ReaderView, outcome: Option<Seq<u8>>) -> ReaderView {
    match outcome {
        None => ReaderView { done: true, ..reader },
        Some(chunk) => ReaderView {
            full: reader.full + chunk.take(least(chunk.len(), bound_of(reader) as nat) as int),
            done: bound_of(reader) == 0,
            ..reader
        },
    }
}

/// The reading after the reads of a stream came back one by one, each with
/// the next of `chunks`, and then one that failed. Reads that would follow
/// the end of the reading are not made.
pub open spec fn read_through(reader: ReaderView, chunks: Seq<Seq<u8>>) -> ReaderView
    decreases chunks.len(),
{
    if reader.done {
        reader
    } else if chunks.len() == 0 {
        after_read(reader, None)
    } else {
        read_through(after_read(reader, Some(chunks[0])), chunks.skip(1))
    }
}

/// Reading a stream to its end gives the bytes read before, followed by the
/// chunks in order, cut off at the ceiling where there is one; and then the
/// reading has ended. No chunk is longer than a read can ask for.
pub proof fn lemma_read_through(reader: ReaderView, chunks: Seq<Seq<u8>>)
    requires
        !reader.done,
        reader.ceiling is Some ==> reader.full.len() <= reader.ceiling->Some_0,
        forall|i: int| 0 <= i < chunks.len() ==> (#[trigger] chunks[i]).len() <= u64::MAX,
    ensures
        read_through(reader, chunks).done,
        read_through(reader, chunks).full == cut(reader.ceiling, reader.full + concat(chunks)),
        read_through(reader, chunks).ceiling == reader.ceiling,
    decreases chunks.len(),
{
    let whole = reader.full + concat(chunks);
    if chunks.len() == 0 {
        assert(whole =~= reader.full);
        assert(reader.full.take(reader.full.len() as int) =~= reader.full);
    } else {
        let first = chunks[0];
        let rest = chunks.skip(1);
        let next = after_read(reader, Some(first));
        let bound = bound_of(reader) as nat;
        assert(whole =~= reader.full + first + concat(rest));
        if next.done {
            assert(first.take(0) =~= Seq::<u8>::empty());
            assert(next.full =~= reader.full);
            assert(whole.take(reader.full.len() as int) =~= reader.full);
        } else {
            assert forall|i: int| 0 <= i < rest.len() implies (#[trigger] rest[i]).len()
                <= u64::MAX by {
                assert(rest[i] == chunks[i + 1]);
            }
            assert(first.take(least(first.len(), bound) as int).len() == least(
                first.len(),
                bound,
            ));
            lemma_read_through(next, rest);
            if first.len() <= bound {
                assert(first.take(first.len() as int) =~= first);
                assert(next.full + concat(rest) =~= whole);
            } else {
                let n = reader.ceiling->Some_0 as int;
                assert(next.full.len() == n);
                assert((next.full + concat(rest)).take(n) =~= next.full);
                assert(whole.take(n) =~= next.full);
            }
        }
    }
}

/// The reading of a body under way: it says how much to ask of the stream
/// and takes what each read brings, until reading has ended.
#[derive(Debug)]
pub struct BodyReader {
    ceiling: Option<u64>,
    full: Vec<u8>,
    done: bool,
}

impl View for BodyReader {
    type V = ReaderView;

    closed spec fn view(&self) -> ReaderView {
        ReaderView { ceiling: self.ceiling, full: self.full@, done: self.done }
    }
}

impl BodyReader {
    /// A reading that has not begun.
    pub fn new(ceiling: Option<u64>) -> (r: Self)
        ensures
            r@ == (ReaderView { ceiling, full: Seq::empty(), done: false }),
    {
        BodyReader { ceiling, full: Vec::new(), done: false }
    }

    /// How many bytes the next read may ask for.
    pub fn bound(&self) -> (r: u64)
        ensures
            r == bound_of(self@),
    {
        match self.ceiling {
            Some(n) => {
                let have: usize = self.full.len();
                if have as u64 <= n {
                    n - have as u64
                } else {
                    0
                }
            },
            None => u64::MAX,
        }
    }

    /// Whether reading has ended.
    pub fn is_done(&self) -> (r: bool)
        ensures
            r == self@.done,
    {
        self.done
    }

    /// Takes what a read brought: its bytes, or `None` where it failed.
    pub fn accept(&mut self, outcome: Option<Vec<u8>>)
        ensures
            final(self)@ == after_read(
                old(self)@,
                match outcome {
                    Some(chunk) => Some(chunk@),
                    None => None,
                },
            ),
    {
        match outcome {
            None => {
                self.done = true;
            },
            Some(chunk) => {
                let bound = self.bound();
                let ghost before = self.full@;
                let take: usize = if chunk.len() as u64 <= bound {
                    chunk.len()
                } else {
                    bound as usize
                };
                let mut i: usize = 0;
                while i < take
                    invariant
                        i <= take <= chunk.len(),
                        self.full@ == before + chunk@.take(i as int),
                        self.ceiling == old(self).ceiling,
                        self.done == old(self).done,
                    decreases take - i,
                {
                    self.full.push(chunk[i]);
                    assert(chunk@.take(i + 1) =~= chunk@.take(i as int).push(chunk@[i as int]));
                    assert(before + chunk@.take(i + 1) =~= (before + chunk@.take(i as int)).push(
                        chunk@[i as int],
                    ));
                    i = i + 1;
                }
                self.done = bound == 0;
            },
        }
    }

    /// The bytes read.
    pub fn into_bytes(self) -> (r: Vec<u8>)
        ensures
            r@ == self@.full,
    {
        self.full
    }
}

/// A response as contracts see it.
pub struct ResponseView<S> {
    pub status_code: u16,
    pub headers: Seq<Entry>,
    /// The body stream, as it is.
    pub body: S,
}

/// A response: its status, its headers, and its body, which is a stream
/// that is not read yet. `S` is the kind of stream that the transport hands
/// out; [`InputStream`] is one that this library can read by itself.
#[derive(Debug)]
pub struct Response<S> {
    pub status_code: u16,
    pub headers: Fields,
    pub body: S,
}

impl<S> View for Response<S> {
    type V = ResponseView<S>;

    open spec fn view(&self) -> ResponseView<S> {
        ResponseView { status_code: self.status_code, headers: self.headers@, body: self.body }
    }
}

/// The text that a lossy decoding makes of `bytes`.
pub uninterp spec fn lossy_text(bytes: Seq<u8>) -> Seq<char>;

/// `String::from_utf8_lossy`, made an owned string. Bytes that are valid
/// UTF-8 decode to their text; for any other the result is a function of the
/// bytes.
#[verifier::external_body]
fn decode_lossy(bytes: &[u8]) -> (r: String)
    ensures
        r@ == lossy_text(bytes@),
        valid_utf8(bytes@) ==> r@ == decode_utf8(bytes@),
{
    String::from_utf8_lossy(bytes).into_owned()
}

/// The ceiling that `headers` declare for reading a body.
pub fn ceiling_of(headers: &Fields) -> (r: Option<u64>)
    ensures
        r == read_ceiling(headers@),
{
    match headers.first("Content-Length") {
        Some(value) => parse(value.as_slice()),
        None => None,
    }
}

/// The reading of the body of a response with `headers`, before its first
/// read: nothing is read yet, and the ceiling is what the headers declare.
pub open spec fn reader_for(headers: Seq<Entry>) -> ReaderView {
    ReaderView { ceiling: read_ceiling(headers), full: Seq::empty(), done: false }
}

impl BodyReader {
    /// The bytes read, as text. Bytes that are not UTF-8 are replaced, not
    /// refused.
    pub fn into_text(self) -> (r: String)
        ensures
            r@ == lossy_text(self@.full),
            valid_utf8(self@.full) ==> r@ == decode_utf8(self@.full),
    {
        let full = self.into_bytes();
        decode_lossy(full.as_slice())
    }
}

impl<S> Response<S> {
    /// A response with the given status, headers and body stream. Nothing
    /// is read from the stream.
    pub fn new(status_code: u16, headers: Fields, body: S) -> (r: Self)
        ensures
            r@ == (ResponseView { status_code, headers: headers@, body }),
    {
        Response { status_code, headers, body }
    }

    /// The ceiling that the headers declare for reading the body.
    pub fn ceiling(&self) -> (r: Option<u64>)
        ensures
            r == read_ceiling(self@.headers),
    {
        ceiling_of(&self.headers)
    }

    /// Begins the reading of the body: the reader that says how much to ask
    /// of the stream at each read, and when reading has ended. Nothing is
    /// read from the stream.
    pub fn reader(&self) -> (r: BodyReader)
        ensures
            r@ == reader_for(self@.headers),
    {
        BodyReader::new(self.ceiling())
    }

    /// Hands out the body stream as it is, with nothing read from it, for a
    /// caller that reads it itself.
    pub fn input_stream(self) -> (r: S)
        ensures
            r == self@.body,
    {
        self.body
    }
}

impl Response<InputStream> {
    /// Reads the stream to the end of the reading.
    fn read(self) -> (r: BodyReader)
        ensures
            r@.full == body_under(read_ceiling(self@.headers), self@.body@),
            r@.done,
    {
        let mut reader = self.reader();
        let ghost ceiling = read_ceiling(self@.headers);
        let ghost whole = self.body@;
        let mut stream = self.body;
        assert(reader@.full + concat(stream@) =~= concat(whole));
        while !reader.is_done()
            invariant
                reader@.ceiling == ceiling,
                ceiling is Some ==> reader@.full.len() <= ceiling->Some_0,
                !reader@.done ==> reader@.full + concat(stream@) == concat(whole),
                reader@.done ==> reader@.full == body_under(ceiling, whole),
            decreases
                    if reader@.done {
                        0
                    } else {
                        concat(stream@).len() + stream@.len() + 1
                    },
        {
            let bound = reader.bound();
            let ghost pending = stream@;
            let ghost before = reader@.full;
            let outcome = stream.blocking_read(bound);
            proof {
                if pending.len() > 0 {
                    lemma_read_splits(pending, bound as nat);
                    let data = read_data(pending, bound as nat);
                    assert(data.take(data.len() as int) =~= data);
                    assert((before + data) + concat(stream@) =~= before + concat(pending));
                    if bound == 0 {
                        assert(before + data =~= before);
                        assert(concat(whole).take(before.len() as int) =~= before);
                    }
                } else {
                    assert(concat(pending) =~= Seq::<u8>::empty());
                    assert(before =~= concat(whole));
                    assert(concat(whole).take(concat(whole).len() as int) =~= concat(whole));
                }
            }
            reader.accept(outcome);
        }
        reader
    }

    /// Reads the whole body. Each read asks for no more than what is left
    /// under the ceiling that `Content-Length` declares, or for as much as
    /// there is where none is declared. Reading ends when the stream has
    /// closed, and after the one read that follows once the ceiling is
    /// used up.
    pub fn bytes(self) -> (r: Vec<u8>)
        ensures
            r@ == body_under(read_ceiling(self@.headers), self@.body@),
    {
        self.read().into_bytes()
    }

    /// Reads the whole body as text. Bytes that are not UTF-8 are replaced,
    /// not refused.
    pub fn text(self) -> (r: String)
        ensures
            r@ == lossy_text(body_under(read_ceiling(self@.headers), self@.body@)),
            valid_utf8(body_under(read_ceiling(self@.headers), self@.body@)) ==> r@
                == decode_utf8(body_under(read_ceiling(self@.headers), self@.body@)),
    {
        self.read().into_text()
    }
}

} // verus!
