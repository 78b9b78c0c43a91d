//! Bounded-latency accumulation of encoded PCM chunks.
//!
//! A real-time producer appends encoded chunks; a periodic consumer drains
//! the whole buffer atomically.  Every chunk starts with a fixed-size stream
//! header; only the first chunk of a drained batch keeps its header, so the
//! drained bytes form one well-formed encoded stream.

use vstd::prelude::*;

verus! {

/// Number of leading bytes of an encoded chunk that carry the stream header.
pub const CHUNK_HEADER_LEN: usize = 44;

/// The bytes a chunk contributes once a batch is already open: the chunk
/// with its stream header removed.
pub open spec fn strip_header(chunk: Seq<u8>) -> Seq<u8> {
    if chunk.len() >= CHUNK_HEADER_LEN {
        chunk.skip(CHUNK_HEADER_LEN as int)
    } else {
        Seq::empty()
    }
}

/// Buffer contents after one append: the first chunk of a batch is kept in
/// full, every later chunk loses its header.
pub open spec fn appended(contents: Seq<u8>, chunk: Seq<u8>) -> Seq<u8> {
    if contents.len() == 0 {
        chunk
    } else {
        contents + strip_header(chunk)
    }
}

/// Buffer contents after appending every chunk of `chunks`, oldest first,
/// to an empty buffer.
pub open spec fn merged_chunks(chunks: Seq<Seq<u8>>) -> Seq<u8>
    decreases chunks.len(),
{
    if chunks.len() == 0 {
        Seq::empty()
    } else {
        appended(merged_chunks(chunks.drop_last()), chunks.last())
    }
}

/// Concatenation of the given chunks with the header stripped from each.
pub open spec fn stripped_concat(chunks: Seq<Seq<u8>>) -> Seq<u8>
    decreases chunks.len(),
{
    if chunks.len() == 0 {
        Seq::empty()
    } else {
        stripped_concat(chunks.drop_last()) + strip_header(chunks.last())
    }
}

/// Byte buffer shared between the capture callback (append) and the
/// analysis cycle (drain).  Each exec method is one atomic step of the
/// model; the embedding runs them under mutual exclusion.
pub struct AccumulationBuffer {
    data: Vec<u8>,
}

impl View for AccumulationBuffer {
    type V = Seq<u8>;

    closed spec fn view(&self) -> Seq<u8> {
        self.data@
    }
}

impl AccumulationBuffer {
    pub fn new() -> (b: Self)
        ensures
            b@ == Seq::<u8>::empty(),
    {
        AccumulationBuffer { data: Vec::new() }
    }

    pub fn len(&self) -> (n: usize)
        ensures
            n == self@.len(),
    {
        self.data.len()
    }

    pub fn is_empty(&self) -> (e: bool)
        ensures
            e == (self@.len() == 0),
    {
        self.data.len() == 0
    }

    /// Append one encoded chunk.  The chunk must carry the fixed-size
    /// stream header; when the buffer already holds data the header is
    /// stripped, since only the first header of a batch is meaningful.
    pub fn append(&mut self, chunk: &[u8])
        requires
            chunk@.len() >= CHUNK_HEADER_LEN,
        ensures
            final(self)@ == appended(old(self)@, chunk@),
    {
        let ghost orig = self.data@;
        let mut i: usize = if self.data.len() == 0 {
            0
        } else {
            CHUNK_HEADER_LEN
        };
        let ghost start = i as int;
        while i < chunk.len()
            invariant
                0 <= start <= i as int <= chunk@.len(),
                self.data@ == orig + chunk@.subrange(start, i as int),
            decreases chunk@.len() - i as int,
        {
            let b = chunk[i];
            self.data.push(b);
            proof {
                assert(self.data@ =~= orig + chunk@.subrange(start, i + 1));
            }
            i = i + 1;
        }
        proof {
            if orig.len() == 0 {
                assert(orig + chunk@.subrange(0, chunk@.len() as int) =~= chunk@);
            } else {
                assert(orig + chunk@.subrange(CHUNK_HEADER_LEN as int, chunk@.len() as int)
                    =~= orig + strip_header(chunk@));
            }
        }
    }

    /// Atomically take the whole contents, leaving the buffer empty.
    pub fn drain(&mut self) -> (out: Vec<u8>)
        ensures
            out@ == old(self)@,
            final(self)@ == Seq::<u8>::empty(),
    {
        let mut out: Vec<u8> = Vec::new();
        core::mem::swap(&mut self.data, &mut out);
        out
    }
}

/// Law: a batch built by appending chunks to an empty buffer is the first
/// chunk in full followed by the header-stripped remaining chunks.
pub proof fn lemma_merged_is_first_plus_stripped_tail(chunks: Seq<Seq<u8>>)
    requires
        chunks.len() > 0,
        forall|i: int| 0 <= i < chunks.len() ==> #[trigger] chunks[i].len() >= CHUNK_HEADER_LEN,
    ensures
        merged_chunks(chunks) == chunks[0] + stripped_concat(chunks.skip(1)),
    decreases chunks.len(),
{
    if chunks.len() == 1 {
        assert(chunks.skip(1) =~= Seq::<Seq<u8>>::empty());
        assert(chunks[0] + stripped_concat(chunks.skip(1)) =~= chunks[0]);
        assert(merged_chunks(chunks.drop_last()) =~= Seq::<u8>::empty());
    } else {
        let dl = chunks.drop_last();
        lemma_merged_is_first_plus_stripped_tail(dl);
        assert(merged_chunks(dl).len() >= chunks[0].len());
        assert(chunks.skip(1).drop_last() =~= dl.skip(1));
        assert(chunks.skip(1).last() == chunks.last());
        assert(merged_chunks(chunks) == merged_chunks(dl) + strip_header(chunks.last()));
        assert(chunks[0] + stripped_concat(dl.skip(1)) + strip_header(chunks.last()) =~= chunks[0]
            + stripped_concat(chunks.skip(1)));
    }
}

/// One atomic operation on the shared buffer, as seen by the order in
/// which the lock was taken.
pub enum BufferOp {
    Append(Seq<u8>),
    Drain,
}

/// Buffer contents after running `ops` from an empty buffer.
pub open spec fn run_contents(ops: Seq<BufferOp>) -> Seq<u8>
    decreases ops.len(),
{
    if ops.len() == 0 {
        Seq::empty()
    } else {
        match ops.last() {
            BufferOp::Append(c) => appended(run_contents(ops.drop_last()), c),
            BufferOp::Drain => Seq::empty(),
        }
    }
}

/// Concatenation of everything the drains of `ops` returned, oldest first.
pub open spec fn run_drained(ops: Seq<BufferOp>) -> Seq<u8>
    decreases ops.len(),
{
    if ops.len() == 0 {
        Seq::empty()
    } else {
        match ops.last() {
            BufferOp::Append(_) => run_drained(ops.drop_last()),
            BufferOp::Drain => run_drained(ops.drop_last()) + run_contents(ops.drop_last()),
        }
    }
}

/// What one append adds to the stream, given the contents found under the
/// lock: the whole chunk when the buffer was empty, the header-stripped
/// chunk otherwise.
pub open spec fn contribution(contents: Seq<u8>, chunk: Seq<u8>) -> Seq<u8> {
    if contents.len() == 0 {
        chunk
    } else {
        strip_header(chunk)
    }
}

/// Concatenation of the contributions of all appends of `ops`, in order.
pub open spec fn run_contributed(ops: Seq<BufferOp>) -> Seq<u8>
    decreases ops.len(),
{
    if ops.len() == 0 {
        Seq::empty()
    } else {
        match ops.last() {
            BufferOp::Append(c) => run_contributed(ops.drop_last()) + contribution(
                run_contents(ops.drop_last()),
                c,
            ),
            BufferOp::Drain => run_contributed(ops.drop_last()),
        }
    }
}

/// Law: in every serialization of atomic appends and drains, the bytes the
/// drains returned followed by the bytes still buffered are exactly the
/// bytes the appends contributed, in order — no byte is lost and none is
/// duplicated, however the two sides interleave.
pub proof fn lemma_interleaving_conserves_bytes(ops: Seq<BufferOp>)
    ensures
        run_drained(ops) + run_contents(ops) == run_contributed(ops),
    decreases ops.len(),
{
    if ops.len() == 0 {
        assert(run_drained(ops) + run_contents(ops) =~= run_contributed(ops));
    } else {
        let dl = ops.drop_last();
        lemma_interleaving_conserves_bytes(dl);
        match ops.last() {
            BufferOp::Append(c) => {
                if run_contents(dl).len() == 0 {
                    assert(run_drained(dl) + run_contents(dl) + c =~= run_drained(dl) + c);
                    assert(run_drained(ops) + run_contents(ops) =~= run_contributed(ops));
                } else {
                    assert(run_drained(dl) + (run_contents(dl) + strip_header(c)) =~= (run_drained(
                        dl,
                    ) + run_contents(dl)) + strip_header(c));
                    assert(run_drained(ops) + run_contents(ops) =~= run_contributed(ops));
                }
            },
            BufferOp::Drain => {
                assert((run_drained(dl) + run_contents(dl)) + Seq::<u8>::empty() =~= run_drained(
                    dl,
                ) + run_contents(dl));
                assert(run_drained(ops) + run_contents(ops) =~= run_contributed(ops));
            },
        }
    }
}

} // verus!
