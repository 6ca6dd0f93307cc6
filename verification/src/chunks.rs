//! The bridge between chunks that arrive from the network and a blocking,
//! pull-based reader. The reader copies out of the chunk at hand; waiting
//! for the next chunk is the caller's work.

use bytes::Buf;
use bytes::Bytes;
use vstd::prelude::*;

verus! {

/// `bytes::Bytes`, a buffer of bytes that is read from its front. Nothing
/// inside it is visible here.
#[verifier::external_type_specification]
#[verifier::external_body]
pub struct ExBytes(Bytes);

/// The bytes that a `Bytes` buffer still holds, front first.
pub uninterp spec fn bytes_contents(b: Bytes) -> Seq<u8>;

/// `Bytes::new`: a buffer that holds nothing.
#[verifier::external_body]
fn bytes_empty() -> (b: Bytes)
    ensures
        bytes_contents(b) == Seq::<u8>::empty(),
{
    Bytes::new()
}

/// `Bytes::len`: the number of bytes that the buffer still holds.
#[verifier::external_body]
fn bytes_len(b: &Bytes) -> (n: usize)
    ensures
        n == bytes_contents(*b).len(),
{
    b.len()
}

/// `Buf::copy_to_slice` on `Bytes`: fills the whole of `dst` from the front
/// of the buffer and removes what was copied. The call panics when the
/// buffer holds fewer bytes than `dst`, which `requires` leaves out.
#[verifier::external_body]
fn bytes_copy_to_slice(b: &mut Bytes, dst: &mut [u8])
    requires
        old(dst)@.len() <= bytes_contents(*old(b)).len(),
    ensures
        final(dst)@ == bytes_contents(*old(b)).take(old(dst)@.len() as int),
        bytes_contents(*final(b)) == bytes_contents(*old(b)).skip(old(dst)@.len() as int),
{
    b.copy_to_slice(dst)
}

/// What a call of [`ChunkReader::read`] did.
#[derive(Clone, Copy, Debug, PartialEq, Eq, Structural)]
pub enum ReadStep {
    /// That many bytes were copied to the front of the caller's buffer.
    Copied(usize),
    /// The current chunk is used up and the stream is still open: the caller
    /// waits for the producer and then calls `feed` or `close`.
    NeedChunk,
    /// The stream is closed and nothing is left: end of stream.
    EndOfStream,
}

/// A component's byte stream as its reader sees it: the bytes of the
/// current chunk that are not read yet, and whether the producer has closed
/// the stream.
pub struct Stream {
    pub pending: Seq<u8>,
    pub closed: bool,
}

impl Stream {
    /// An open stream of which no chunk has come.
    pub open spec fn fresh() -> Stream {
        Stream { pending: Seq::empty(), closed: false }
    }

    /// The number of bytes that a read into a buffer of `room` bytes
    /// copies: all that are unread, or as many as fit.
    pub open spec fn amount(self, room: nat) -> nat {
        if self.pending.len() <= room {
            self.pending.len()
        } else {
            room
        }
    }

    /// What a read into a buffer of `room` bytes does.
    pub open spec fn step(self, room: nat) -> ReadStep {
        if self.pending.len() > 0 {
            ReadStep::Copied(self.amount(room) as usize)
        } else if self.closed {
            ReadStep::EndOfStream
        } else {
            ReadStep::NeedChunk
        }
    }

    /// The bytes that a read into a buffer of `room` bytes copies.
    pub open spec fn copied(self, room: nat) -> Seq<u8> {
        self.pending.take(self.amount(room) as int)
    }

    /// The stream after a read into a buffer of `room` bytes.
    pub open spec fn after_read(self, room: nat) -> Stream {
        Stream { pending: self.pending.skip(self.amount(room) as int), closed: self.closed }
    }

    /// Whether the stream takes a chunk: the current one is used up and the
    /// stream is open.
    pub open spec fn accepts(self) -> bool {
        self.pending.len() == 0 && !self.closed
    }

    /// The stream after `chunk` was offered to it.
    pub open spec fn after_feed(self, chunk: Seq<u8>) -> Stream {
        if self.accepts() {
            Stream { pending: chunk, closed: false }
        } else {
            self
        }
    }

    /// The stream after its producer closed it.
    pub open spec fn after_close(self) -> Stream {
        Stream { pending: self.pending, closed: true }
    }
}

/// The consuming end of one component's byte stream: the chunk being read
/// and whether the producer has closed the stream.
pub struct ChunkReader {
    cur: Bytes,
    closed: bool,
}

impl View for ChunkReader {
    type V = Stream;

    closed spec fn view(&self) -> Stream {
        Stream { pending: bytes_contents(self.cur), closed: self.closed }
    }
}

impl ChunkReader {
    /// A reader with no chunk yet, on an open stream.
    pub fn new() -> (r: ChunkReader)
        ensures
            r@ == Stream::fresh(),
    {
        ChunkReader { cur: bytes_empty(), closed: false }
    }

    /// Copies as much of the current chunk as fits to the front of `buf`
    /// and leaves the rest of `buf` as it is. With no unread byte left it
    /// copies nothing and says whether the stream has ended or a further
    /// chunk must be awaited. It never fails.
    pub fn read(&mut self, buf: &mut [u8]) -> (step: ReadStep)
        ensures
            step == old(self)@.step(old(buf)@.len()),
            final(self)@ == old(self)@.after_read(old(buf)@.len()),
            final(buf)@ == old(self)@.copied(old(buf)@.len()) + old(buf)@.skip(
                old(self)@.amount(old(buf)@.len()) as int,
            ),
    {
        let have: usize = bytes_len(&self.cur);
        if have == 0 {
            assert(self@.pending.skip(0) =~= self@.pending);
            assert(self@.pending.take(0) + buf@.skip(0) =~= buf@);
            if self.closed {
                return ReadStep::EndOfStream;
            }
            return ReadStep::NeedChunk;
        }
        let room: usize = buf.len();
        let n: usize = if have <= room {
            have
        } else {
            room
        };
        let (head, _) = buf.split_at_mut(n);
        bytes_copy_to_slice(&mut self.cur, head);
        ReadStep::Copied(n)
    }

    /// Offers the next chunk from the producer. A chunk is taken only when
    /// the current one is used up and the stream is open; otherwise it is
    /// handed back and nothing changes.
    pub fn feed(&mut self, chunk: Bytes) -> (refused: Option<Bytes>)
        ensures
            final(self)@ == old(self)@.after_feed(bytes_contents(chunk)),
            refused == if old(self)@.accepts() {
                None
            } else {
                Some(chunk)
            },
    {
        if self.closed || bytes_len(&self.cur) != 0 {
            return Some(chunk);
        }
        self.cur = chunk;
        None
    }

    /// Records that the producer has closed the stream. What is still
    /// unread stays readable.
    pub fn close(&mut self)
        ensures
            final(self)@ == old(self)@.after_close(),
    {
        self.closed = true;
    }
}

/// What happens to a stream: a read into a buffer of so many bytes, a chunk
/// that the producer offers, or the producer's closing.
pub enum StreamOp {
    Read(nat),
    Feed(Seq<u8>),
    Close,
}

impl Stream {
    /// The stream after `op`.
    pub open spec fn after(self, op: StreamOp) -> Stream {
        match op {
            StreamOp::Read(room) => self.after_read(room),
            StreamOp::Feed(chunk) => self.after_feed(chunk),
            StreamOp::Close => self.after_close(),
        }
    }

    /// The stream after the first `n` of `ops`, in order.
    pub open spec fn replay(self, ops: Seq<StreamOp>, n: nat) -> Stream
        decreases n,
    {
        if n == 0 {
            self
        } else {
            self.replay(ops, (n - 1) as nat).after(ops[n - 1])
        }
    }

    /// The bytes that the reads among the first `n` of `ops` copied, in the
    /// order in which they were copied.
    pub open spec fn delivered(self, ops: Seq<StreamOp>, n: nat) -> Seq<u8>
        decreases n,
    {
        if n == 0 {
            Seq::empty()
        } else {
            let before = self.replay(ops, (n - 1) as nat);
            let now = match ops[n - 1] {
                StreamOp::Read(room) => before.copied(room),
                _ => Seq::empty(),
            };
            self.delivered(ops, (n - 1) as nat) + now
        }
    }

    /// The bytes of the chunks that the stream took among the first `n` of
    /// `ops`, in the order in which it took them.
    pub open spec fn taken(self, ops: Seq<StreamOp>, n: nat) -> Seq<u8>
        decreases n,
    {
        if n == 0 {
            Seq::empty()
        } else {
            let before = self.replay(ops, (n - 1) as nat);
            let now = match ops[n - 1] {
                StreamOp::Feed(chunk) => if before.accepts() {
                    chunk
                } else {
                    Seq::empty()
                },
                _ => Seq::empty(),
            };
            self.taken(ops, (n - 1) as nat) + now
        }
    }
}

/// A read makes progress and stays within bounds: it copies no more than
/// fits and no more than is unread, it copies a byte whenever one is unread
/// and the buffer has room, and it asks for a chunk or reports the end only
/// when nothing is unread.
pub proof fn lemma_read_makes_progress(s: Stream, room: nat)
    requires
        room <= usize::MAX,
        s.pending.len() <= usize::MAX,
    ensures
        match s.step(room) {
            ReadStep::Copied(n) => {
                &&& n == s.copied(room).len()
                &&& n <= room
                &&& n <= s.pending.len()
                &&& (n == 0 ==> room == 0)
            },
            ReadStep::NeedChunk => s.pending.len() == 0 && !s.closed,
            ReadStep::EndOfStream => s.pending.len() == 0 && s.closed,
        },
{
}

/// The bridge loses, repeats and reorders nothing: whatever is read,
/// offered and closed, and in whatever order, the bytes that were copied
/// out, followed by those that are still unread, are the bytes of the
/// chunks that the stream took, in the order in which it took them.
pub proof fn lemma_bytes_pass_unchanged(ops: Seq<StreamOp>, n: nat)
    requires
        n <= ops.len(),
    ensures
        Stream::fresh().delivered(ops, n) + Stream::fresh().replay(ops, n).pending
            == Stream::fresh().taken(ops, n),
    decreases n,
{
    let s = Stream::fresh();
    if n > 0 {
        let m = (n - 1) as nat;
        lemma_bytes_pass_unchanged(ops, m);
        let before = s.replay(ops, m);
        let done = s.delivered(ops, m);
        match ops[n - 1] {
            StreamOp::Read(room) => {
                let k = before.amount(room) as int;
                assert(before.pending.take(k) + before.pending.skip(k) =~= before.pending);
                assert((done + before.pending.take(k)) + before.pending.skip(k) =~= done
                    + before.pending);
                assert(s.taken(ops, n) =~= s.taken(ops, m));
            },
            StreamOp::Feed(chunk) => {
                assert(s.delivered(ops, n) =~= done);
                if before.accepts() {
                    assert(done + before.pending =~= done);
                } else {
                    assert(s.taken(ops, n) =~= s.taken(ops, m));
                }
            },
            StreamOp::Close => {
                assert(s.delivered(ops, n) =~= done);
                assert(s.taken(ops, n) =~= s.taken(ops, m));
            },
        }
    } else {
        assert(s.delivered(ops, 0) + s.pending =~= s.taken(ops, 0));
    }
}

/// The end of the stream is reported only when every byte that the stream
/// took has been copied out.
pub proof fn lemma_end_means_all_delivered(ops: Seq<StreamOp>, n: nat, room: nat)
    requires
        n <= ops.len(),
        Stream::fresh().replay(ops, n).step(room) is EndOfStream,
    ensures
        Stream::fresh().delivered(ops, n) == Stream::fresh().taken(ops, n),
{
    lemma_bytes_pass_unchanged(ops, n);
    let s = Stream::fresh();
    assert(s.delivered(ops, n) + s.replay(ops, n).pending =~= s.delivered(ops, n));
}

} // verus!
