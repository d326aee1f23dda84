//! The append-only output log: a sequence of fixed-size blocks.
//!
//! The log grows by filling the unoccupied tail of its last block and then
//! allocating fresh blocks; bytes that were committed once are never moved
//! or rewritten, so a range handed to a reader stays valid however much the
//! log grows afterwards. A read never crosses a block boundary: it returns
//! the bytes from the requested position to the end of that block (or to
//! the end of the log), and the caller advances across boundaries by
//! reading again from the returned position.

use vstd::arithmetic::div_mod::{lemma_fundamental_div_mod, lemma_fundamental_div_mod_converse};
use vstd::prelude::*;
use vstd::slice::slice_subrange;

verus! {

/// Number of bytes each block of the log holds.
pub const CHUNK_SIZE: usize = 1024;

/// A byte offset into the logical output stream, used by readers to resume.
#[derive(Clone, Copy, PartialEq, Eq, Structural)]
pub struct OutputPos(usize);

impl View for OutputPos {
    type V = int;

    closed spec fn view(&self) -> int {
        self.0 as int
    }
}

impl OutputPos {
    /// Advance the position by `offset` bytes.
    pub fn offset(self, offset: usize) -> (r: Self)
        requires
            self@ + offset <= usize::MAX,
        ensures
            r@ == self@ + offset,
    {
        OutputPos(self.0 + offset)
    }

    /// Index of the block this position falls in.
    pub fn chunk_index(self) -> (r: usize)
        ensures
            r == self@ / (CHUNK_SIZE as int),
    {
        self.0 / CHUNK_SIZE
    }

    /// Offset of this position within its block.
    pub fn pos_in_chunk(self) -> (r: usize)
        ensures
            r == self@ % (CHUNK_SIZE as int),
    {
        self.0 % CHUNK_SIZE
    }
}

impl Default for OutputPos {
    /// The start of the stream.
    fn default() -> (r: Self)
        ensures
            r@ == 0,
    {
        OutputPos(0)
    }
}

/// The contents of a sequence of blocks, as one byte sequence.
pub open spec fn chunk_seqs(chunks: Seq<Vec<u8>>) -> Seq<Seq<u8>> {
    chunks.map_values(|c: Vec<u8>| c@)
}

/// Where a read starting at `pos` in a log of length `len` ends: at the end
/// of the containing block, or at the end of the log, whichever is smaller.
pub open spec fn next_read_end(len: int, pos: int) -> int {
    let boundary = pos - (pos % (CHUNK_SIZE as int)) + (CHUNK_SIZE as int);
    if boundary <= len {
        boundary
    } else {
        len
    }
}

/// Manages the output of a process: interleaved appending and reading.
pub struct Output {
    chunks: Vec<Vec<u8>>,
    last_chunk_size: usize,
}

impl View for Output {
    type V = Seq<u8>;

    /// The logical byte stream committed so far.
    closed spec fn view(&self) -> Seq<u8> {
        chunk_seqs(self.chunks@).flatten()
    }
}

impl Output {
    /// Every block but the last is fully occupied; the last block's fill is
    /// tracked and lies in `[1, CHUNK_SIZE]`; the committed length is what
    /// the block structure says it is, and fits a `usize`.
    pub closed spec fn wf(&self) -> bool {
        let n = self.chunks@.len() as int;
        &&& forall|i: int|
            0 <= i < n - 1 ==> (#[trigger] self.chunks@[i])@.len() == CHUNK_SIZE
        &&& (n == 0 ==> self.last_chunk_size == 0)
        &&& (n > 0 ==> self.last_chunk_size == self.chunks@[n - 1]@.len() && 1
            <= self.last_chunk_size <= CHUNK_SIZE)
        &&& self@.len() == (if n == 0 {
            0int
        } else {
            (n - 1) * (CHUNK_SIZE as int) + self.last_chunk_size
        })
        &&& self@.len() <= usize::MAX
    }

    /// How many blocks the log currently holds.
    pub closed spec fn spec_block_count(&self) -> int {
        self.chunks@.len() as int
    }

    /// How many bytes of the last block are occupied.
    pub closed spec fn spec_last_fill(&self) -> int {
        self.last_chunk_size as int
    }

    /// An empty log.
    pub fn new() -> (r: Output)
        ensures
            r.wf(),
            r@ == Seq::<u8>::empty(),
            r.spec_block_count() == 0,
    {
        let r = Output { chunks: Vec::new(), last_chunk_size: 0 };
        proof {
            assert(chunk_seqs(r.chunks@) =~= Seq::<Seq<u8>>::empty());
            assert(r@ =~= Seq::<u8>::empty());
        }
        r
    }

    /// Total number of committed bytes.
    pub fn len(&self) -> (r: usize)
        requires
            self.wf(),
        ensures
            r == self@.len(),
    {
        if self.chunks.len() == 0 {
            0
        } else {
            (self.chunks.len() - 1) * CHUNK_SIZE + self.last_chunk_size
        }
    }

    /// Number of blocks, as executable code.
    pub fn block_count(&self) -> (r: usize)
        ensures
            r == self.spec_block_count(),
    {
        self.chunks.len()
    }

    /// Occupied bytes of the last block, as executable code.
    pub fn last_fill(&self) -> (r: usize)
        ensures
            r == self.spec_last_fill(),
    {
        self.last_chunk_size
    }

    /// Extend the stream by `data`. Fills the remaining capacity of the
    /// current last block first, then allocates as many new blocks as
    /// needed, leaving the last one partially filled. Previously committed
    /// bytes are never touched: the new stream is the old one followed by
    /// `data`.
    pub fn append(&mut self, data: &[u8])
        requires
            old(self).wf(),
            old(self)@.len() + data@.len() <= usize::MAX,
        ensures
            final(self).wf(),
            final(self)@ == old(self)@ + data@,
    {
        let ghost pre = *old(self);
        let mut consumed: usize = 0;

        if self.chunks.len() > 0 && self.last_chunk_size < CHUNK_SIZE {
            let ghost pre_last = pre.chunks@[pre.chunks@.len() - 1]@;
            let mut last = self.chunks.pop().unwrap();
            proof {
                assert(last@ =~= pre_last + data@.subrange(0, consumed as int));
            }
            while consumed < data.len() && last.len() < CHUNK_SIZE
                invariant
                    consumed <= data@.len(),
                    self.chunks@ == pre.chunks@.drop_last(),
                    1 <= last@.len() <= CHUNK_SIZE,
                    last@ == pre_last + data@.subrange(0, consumed as int),
                    pre_last.len() >= 1,
                decreases data@.len() - consumed,
            {
                last.push(data[consumed]);
                consumed = consumed + 1;
                proof {
                    assert(last@ =~= pre_last + data@.subrange(0, consumed as int));
                }
            }
            self.last_chunk_size = last.len();
            self.chunks.push(last);
            proof {
                let prefix = chunk_seqs(pre.chunks@.drop_last());
                assert(chunk_seqs(pre.chunks@) =~= prefix.push(pre_last));
                prefix.lemma_flatten_push(pre_last);
                assert(chunk_seqs(self.chunks@) =~= prefix.push(last@));
                prefix.lemma_flatten_push(last@);
                assert(self@ =~= pre@ + data@.subrange(0, consumed as int));
            }
        }
        proof {
            assert(self@ == pre@ + data@.subrange(0, consumed as int));
            assert(self.wf());
        }
        while consumed < data.len()
            invariant
                pre@.len() + data@.len() <= usize::MAX,
                consumed <= data@.len(),
                self.wf(),
                self@ == pre@ + data@.subrange(0, consumed as int),
                consumed < data@.len() ==> (self.chunks@.len() == 0 || self.last_chunk_size
                    == CHUNK_SIZE),
            decreases data@.len() - consumed,
        {
            let ghost mid = *self;
            let ghost start = consumed;
            let mut chunk: Vec<u8> = Vec::with_capacity(CHUNK_SIZE);
            while consumed < data.len() && chunk.len() < CHUNK_SIZE
                invariant
                    start <= consumed <= data@.len(),
                    chunk@ == data@.subrange(start as int, consumed as int),
                    chunk@.len() <= CHUNK_SIZE,
                    *self == mid,
                decreases data@.len() - consumed,
            {
                chunk.push(data[consumed]);
                consumed = consumed + 1;
                proof {
                    assert(chunk@ =~= data@.subrange(start as int, consumed as int));
                }
            }
            self.last_chunk_size = chunk.len();
            self.chunks.push(chunk);
            proof {
                assert(chunk_seqs(self.chunks@) =~= chunk_seqs(mid.chunks@).push(chunk@));
                chunk_seqs(mid.chunks@).lemma_flatten_push(chunk@);
                assert(self@ == mid@ + chunk@);
                assert(pre@ + data@.subrange(0, start as int) + data@.subrange(
                    start as int,
                    consumed as int,
                ) =~= pre@ + data@.subrange(0, consumed as int));
                assert(self@ == pre@ + data@.subrange(0, consumed as int));
            }
        }
        proof {
            assert(data@.subrange(0, data@.len() as int) =~= data@);
        }
    }

    /// Read from `pos`: `None` once `pos` has reached the committed length;
    /// otherwise the bytes from `pos` to the end of its block or to the end
    /// of the log, whichever comes first, together with the position to
    /// resume from.
    pub fn try_read<'a>(&'a self, pos: OutputPos) -> (r: Option<(OutputPos, &'a [u8])>)
        requires
            self.wf(),
        ensures
            match r {
                None => pos@ >= self@.len(),
                Some((next, slice)) => {
                    &&& 0 <= pos@ < self@.len()
                    &&& next@ == next_read_end(self@.len() as int, pos@)
                    &&& pos@ < next@ <= self@.len()
                    &&& slice@ == self@.subrange(pos@, next@)
                },
            },
    {
        let length = self.len();
        if pos.0 >= length {
            return None;
        }
        let chunk_idx = pos.chunk_index();
        let pos_in_chunk = pos.pos_in_chunk();
        let ghost c = CHUNK_SIZE as int;
        let ghost n = self.chunks@.len() as int;
        proof {
            lemma_fundamental_div_mod(pos@, c);
            assert(pos@ == c * (chunk_idx as int) + pos_in_chunk as int);
            assert(0 <= (pos_in_chunk as int) && (pos_in_chunk as int) < c);
            // The position lies in an existing block.
            assert(chunk_idx < n) by {
                if chunk_idx as int >= n {
                    assert(pos@ >= c * n) by (nonlinear_arith)
                        requires
                            pos@ == c * (chunk_idx as int) + pos_in_chunk as int,
                            chunk_idx as int >= n,
                            pos_in_chunk as int >= 0,
                            c > 0,
                    ;
                    assert(self@.len() <= c * n) by (nonlinear_arith)
                        requires
                            self@.len() == (n - 1) * c + self.last_chunk_size,
                            self.last_chunk_size <= c,
                    ;
                }
            }
            lemma_chunk_span(chunk_seqs(self.chunks@), chunk_idx as int);
        }
        let chunk: &Vec<u8> = &self.chunks[chunk_idx];
        proof {
            // The block starts at chunk_idx * CHUNK_SIZE in the stream and
            // the position falls strictly inside its occupied part.
            assert((chunk_idx as int) * c == c * (chunk_idx as int)) by (nonlinear_arith);
            if chunk_idx as int == n - 1 {
                assert(pos_in_chunk < chunk@.len());
            } else {
                assert(chunk@.len() == CHUNK_SIZE);
                assert(pos_in_chunk < chunk@.len());
            }
        }
        let size = chunk.len() - pos_in_chunk;
        let slice = slice_subrange(chunk.as_slice(), pos_in_chunk, chunk.len());
        let next = pos.offset(size);
        proof {
            let start = (chunk_idx as int) * c;
            assert(self@.subrange(start, start + chunk@.len() as int) == chunk_seqs(
                self.chunks@,
            )[chunk_idx as int]);
            // The returned slice is exactly the stream between pos and next.
            assert(slice@ =~= self@.subrange(pos@, pos@ + size as int));
            // next is the block boundary capped at the stream length.
            if chunk_idx as int == n - 1 {
                assert(next@ == self@.len());
                assert(next@ == next_read_end(self@.len() as int, pos@));
            } else {
                assert(next@ == start + c);
                assert(next@ == next_read_end(self@.len() as int, pos@)) by {
                    assert((n - 2) * c + c == (n - 1) * c) by (nonlinear_arith);
                    assert(start + c <= (n - 1) * c) by (nonlinear_arith)
                        requires
                            chunk_idx as int <= n - 2,
                            c > 0,
                            start == (chunk_idx as int) * c,
                    ;
                };
            }
        }
        Some((next, slice))
    }

    /// Drain everything from `from` to the end of the log by repeated
    /// `try_read` calls, concatenating the returned slices.
    pub fn read_all(&self, from: OutputPos) -> (r: Vec<u8>)
        requires
            self.wf(),
        ensures
            from@ <= self@.len() ==> r@ == self@.subrange(from@, self@.len() as int),
            from@ > self@.len() ==> r@ == Seq::<u8>::empty(),
    {
        let mut out: Vec<u8> = Vec::new();
        let length = self.len();
        if from.0 >= length {
            proof {
                if from@ <= self@.len() {
                    assert(self@.subrange(from@, self@.len() as int) =~= Seq::<u8>::empty());
                }
            }
            return out;
        }
        let mut pos = from;
        while pos.0 < length
            invariant
                self.wf(),
                length == self@.len(),
                from@ <= pos@ <= length,
                out@ == self@.subrange(from@, pos@),
            decreases length - pos@,
        {
            let (next, slice) = self.try_read(pos).unwrap();
            out.extend_from_slice(slice);
            proof {
                assert(self@.subrange(from@, pos@) + self@.subrange(pos@, next@) =~= self@.subrange(
                    from@,
                    next@,
                ));
            }
            pos = next;
        }
        out
    }
}

impl Default for Output {
    /// An empty log.
    fn default() -> (r: Output)
        ensures
            r.wf(),
            r@ == Seq::<u8>::empty(),
            r.spec_block_count() == 0,
    {
        Output::new()
    }
}

/// Each block of a well-formed block sequence spans the byte range of the
/// flattened stream that its index says it should: block `k` starts at
/// `k * CHUNK_SIZE`.
proof fn lemma_chunk_span(cs: Seq<Seq<u8>>, k: int)
    requires
        forall|i: int| 0 <= i < cs.len() - 1 ==> (#[trigger] cs[i]).len() == CHUNK_SIZE,
        0 <= k < cs.len(),
    ensures
        cs.flatten().len() >= k * (CHUNK_SIZE as int) + cs[k].len(),
        cs.flatten().subrange(
            k * (CHUNK_SIZE as int),
            k * (CHUNK_SIZE as int) + cs[k].len() as int,
        ) == cs[k],
    decreases cs.len(),
{
    let c = CHUNK_SIZE as int;
    if k == 0 {
        assert(cs.flatten() == cs.first() + cs.drop_first().flatten());
        assert(cs.flatten().subrange(0, cs[0].len() as int) =~= cs[0]);
    } else {
        let rest = cs.drop_first();
        assert(cs[0].len() == c);
        lemma_chunk_span(rest, k - 1);
        assert(cs.flatten() == cs.first() + rest.flatten());
        assert((k - 1) * c == k * c - c) by (nonlinear_arith);
        assert(cs.flatten().subrange(k * c, k * c + cs[k].len() as int) =~= rest.flatten()
            .subrange((k - 1) * c, (k - 1) * c + rest[k - 1].len() as int));
    }
}

/// The sum of the lengths of a sequence of byte batches.
pub open spec fn total_len(batches: Seq<Seq<u8>>) -> int
    decreases batches.len(),
{
    if batches.len() == 0 {
        0
    } else {
        total_len(batches.drop_last()) + batches.last().len()
    }
}

/// Monotonic-length law: after appending a sequence of batches to an empty
/// log, the committed length is exactly the sum of the batch sizes.
pub proof fn lemma_length_is_sum(batches: Seq<Seq<u8>>)
    ensures
        batches.flatten().len() == total_len(batches),
    decreases batches.len(),
{
    if batches.len() == 0 {
        assert(batches.flatten() =~= Seq::<u8>::empty());
    } else {
        lemma_length_is_sum(batches.drop_last());
        batches.drop_last().lemma_flatten_push(batches.last());
        assert(batches =~= batches.drop_last().push(batches.last()));
    }
}

/// The reads a full drain performs from position `pos`: each one runs to
/// the next block boundary or to the end of the log.
pub open spec fn drain_from(log: Seq<u8>, pos: int) -> Seq<Seq<u8>>
    decreases log.len() - pos,
{
    if pos < 0 || pos >= log.len() {
        Seq::<Seq<u8>>::empty()
    } else {
        let end = next_read_end(log.len() as int, pos);
        seq![log.subrange(pos, end)] + drain_from(log, end)
    }
}

/// Round-trip law: a full drain by repeated block-bounded reads returns
/// exactly the bytes of the log from the starting position on, whatever
/// the block boundaries are.
pub proof fn lemma_round_trip(log: Seq<u8>, pos: int)
    requires
        0 <= pos <= log.len(),
    ensures
        drain_from(log, pos).flatten() == log.subrange(pos, log.len() as int),
    decreases log.len() - pos,
{
    if pos >= log.len() {
        assert(drain_from(log, pos).flatten() =~= Seq::<u8>::empty());
        assert(log.subrange(pos, log.len() as int) =~= Seq::<u8>::empty());
    } else {
        let end = next_read_end(log.len() as int, pos);
        lemma_round_trip(log, end);
        let d = drain_from(log, pos);
        assert(d.flatten() == d.first() + d.drop_first().flatten());
        assert(d.drop_first() =~= drain_from(log, end));
        assert(log.subrange(pos, end) + log.subrange(end, log.len() as int) =~= log.subrange(
            pos,
            log.len() as int,
        ));
    }
}

/// No-retroactive-mutation law: extending the log never changes a byte
/// range that already existed — a slice handed out for a position before
/// an append reads the same after it.
pub proof fn lemma_no_retroactive_mutation(before: Seq<u8>, ext: Seq<u8>, lo: int, hi: int)
    requires
        0 <= lo <= hi <= before.len(),
    ensures
        (before + ext).subrange(lo, hi) == before.subrange(lo, hi),
{
    assert((before + ext).subrange(lo, hi) =~= before.subrange(lo, hi));
}

/// Block-accounting law: the number of blocks and the fill of the last one
/// are determined by the committed length alone — `len` bytes occupy
/// `ceil(len / CHUNK_SIZE)` blocks, the last holding what remains.
pub proof fn lemma_block_accounting(o: &Output)
    requires
        o.wf(),
    ensures
        o@.len() == 0 ==> o.spec_block_count() == 0 && o.spec_last_fill() == 0,
        o@.len() > 0 ==> o.spec_block_count() == (o@.len() - 1) / (CHUNK_SIZE as int) + 1,
        o@.len() > 0 ==> o.spec_last_fill() == o@.len() - (o.spec_block_count() - 1) * (
        CHUNK_SIZE as int),
{
    let c = CHUNK_SIZE as int;
    let n = o.spec_block_count();
    if o@.len() == 0 {
        if n > 0 {
            assert(o@.len() == (n - 1) * c + o.spec_last_fill());
            assert((n - 1) * c >= 0) by (nonlinear_arith)
                requires
                    n >= 1,
                    c > 0,
            ;
        }
    } else {
        assert(n > 0);
        assert(o@.len() - 1 == (n - 1) * c + (o.spec_last_fill() - 1));
        lemma_fundamental_div_mod_converse(o@.len() - 1, c, n - 1, o.spec_last_fill() - 1);
    }
}

} // verus!
