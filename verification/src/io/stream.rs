//! Putting a byte range together from the chunks of a stream.

use vstd::prelude::*;

use crate::error::{VortexError, VortexResult};

verus! {

/// All chunks one behind the other.
pub open spec fn joined(chunks: Seq<Seq<u8>>) -> Seq<u8>
    decreases chunks.len(),
{
    if chunks.len() == 0 {
        Seq::empty()
    } else {
        joined(chunks.drop_last()) + chunks.last()
    }
}

/// The error of the first chunk that reaches beyond the expected length, if there is one.
pub open spec fn first_excess(chunks: Seq<Seq<u8>>, length: usize) -> Option<VortexError>
    decreases chunks.len(),
{
    if chunks.len() == 0 {
        None
    } else {
        match first_excess(chunks.drop_last(), length) {
            Some(e) => Some(e),
            None => if joined(chunks).len() > length {
                Some(
                    VortexError::StreamTooLong {
                        returned: joined(chunks).len() as usize,
                        expected: length,
                    },
                )
            } else {
                None
            },
        }
    }
}

/// The outcome of reading a range of `length` bytes from a stream of chunks: all of the bytes, or
/// an error as soon as there are too many or at the end if there are too few.
pub open spec fn read_outcome(chunks: Seq<Seq<u8>>, length: usize) -> VortexResult<Seq<u8>> {
    match first_excess(chunks, length) {
        Some(e) => Err(e),
        None => if joined(chunks).len() < length {
            Err(
                VortexError::StreamLength {
                    returned: joined(chunks).len() as usize,
                    expected: length,
                },
            )
        } else {
            Ok(joined(chunks))
        },
    }
}

/// Without an excess the chunks are no longer than expected.
pub proof fn lemma_no_excess(chunks: Seq<Seq<u8>>, length: usize)
    requires
        first_excess(chunks, length) is None,
    ensures
        joined(chunks).len() <= length,
{
}

/// A stream whose chunks are exactly as long as expected gives all of its bytes, however they are
/// divided into chunks.
pub proof fn lemma_exact_stream(chunks: Seq<Seq<u8>>, length: usize)
    requires
        joined(chunks).len() == length,
    ensures
        read_outcome(chunks, length) == Ok::<Seq<u8>, VortexError>(joined(chunks)),
{
    lemma_prefix_within(chunks, length);
}

proof fn lemma_prefix_within(chunks: Seq<Seq<u8>>, length: usize)
    requires
        joined(chunks).len() <= length,
    ensures
        first_excess(chunks, length) is None,
    decreases chunks.len(),
{
    if chunks.len() > 0 {
        lemma_prefix_within(chunks.drop_last(), length);
    }
}

/// A stream that gives bytes gives exactly as many as expected.
pub proof fn lemma_read_length(chunks: Seq<Seq<u8>>, length: usize)
    ensures
        read_outcome(chunks, length) matches Ok(bytes) ==> bytes.len() == length,
{
}

/// How many bytes the first `i` chunks have together.
pub open spec fn bytes_before(chunks: Seq<Seq<u8>>, i: int) -> int
    decreases i,
{
    if i <= 0 {
        0
    } else {
        bytes_before(chunks, i - 1) + chunks[i - 1].len()
    }
}

/// Only the chunks before a position count for how many bytes come before it.
proof fn lemma_bytes_before_prefix(left: Seq<Seq<u8>>, right: Seq<Seq<u8>>, i: int)
    requires
        i <= left.len(),
        i <= right.len(),
        forall|k: int| 0 <= k < i ==> #[trigger] left[k] == right[k],
    ensures
        bytes_before(left, i) == bytes_before(right, i),
    decreases i,
{
    if i > 0 {
        assert(left[i - 1] == right[i - 1]);
        lemma_bytes_before_prefix(left, right, i - 1);
    }
}

/// More chunks have no fewer bytes.
pub proof fn lemma_bytes_before_grows(chunks: Seq<Seq<u8>>, i: int, j: int)
    requires
        i <= j,
    ensures
        bytes_before(chunks, i) <= bytes_before(chunks, j),
    decreases j,
{
    if 0 < j && i < j {
        lemma_bytes_before_grows(chunks, i, j - 1);
    }
}

/// One more chunk leaves the bytes before it where they are, and its own bytes come behind them.
pub proof fn lemma_next_chunk(chunks: Seq<Seq<u8>>, chunk: Seq<u8>)
    ensures
        joined(Seq::<Seq<u8>>::empty()).len() == 0,
        joined(chunks.push(chunk)).len() == joined(chunks).len() + chunk.len(),
        forall|p: int|
            0 <= p < joined(chunks).len() ==> #[trigger] joined(chunks.push(chunk))[p] == joined(
                chunks,
            )[p],
        forall|k: int|
            0 <= k < chunk.len() ==> #[trigger] chunk[k] == joined(chunks.push(chunk))[joined(
                chunks,
            ).len() + k],
{
    assert(chunks.push(chunk).drop_last() =~= chunks);
    assert(chunks.push(chunk).last() == chunk);
}

/// What is read has byte `k` of chunk `i` behind the bytes of the chunks before it.
pub proof fn lemma_joined_byte(chunks: Seq<Seq<u8>>, i: int, k: int)
    requires
        0 <= i < chunks.len(),
        0 <= k < chunks[i].len(),
    ensures
        joined(chunks).len() == bytes_before(chunks, chunks.len() as int),
        0 <= bytes_before(chunks, i),
        bytes_before(chunks, i) + k < joined(chunks).len(),
        joined(chunks)[bytes_before(chunks, i) + k] == chunks[i][k],
    decreases chunks.len(),
{
    let front = chunks.drop_last();
    let n = front.len() as int;
    lemma_joined_len(chunks);
    lemma_joined_len(front);
    lemma_bytes_before_prefix(chunks, front, i);
    lemma_bytes_before_prefix(chunks, front, n);
    lemma_bytes_before_grows(chunks, 0, i);
    if i < n {
        assert(front[i] == chunks[i]);
        lemma_joined_byte(front, i, k);
        lemma_bytes_before_grows(chunks, i + 1, n);
    }
}

/// What is read has as many bytes as the chunks together.
pub proof fn lemma_joined_len(chunks: Seq<Seq<u8>>)
    ensures
        joined(chunks).len() == bytes_before(chunks, chunks.len() as int),
    decreases chunks.len(),
{
    if chunks.len() > 0 {
        let front = chunks.drop_last();
        lemma_joined_len(front);
        lemma_bytes_before_prefix(chunks, front, front.len() as int);
    }
}

/// The error of the first chunk that is too much, found by adding up the lengths of the chunks.
proof fn lemma_first_excess(chunks: Seq<Seq<u8>>, length: usize)
    requires
        bytes_before(chunks, chunks.len() as int) <= usize::MAX,
    ensures
        first_excess(chunks, length) is Some <==> bytes_before(chunks, chunks.len() as int)
            > length,
        first_excess(chunks, length) matches Some(e) ==> exists|i: int|
            0 <= i < chunks.len() && bytes_before(chunks, i) <= length
                < #[trigger] bytes_before(chunks, i + 1) && e == (VortexError::StreamTooLong {
                returned: bytes_before(chunks, i + 1) as usize,
                expected: length,
            }),
    decreases chunks.len(),
{
    lemma_joined_len(chunks);
    if chunks.len() > 0 {
        let front = chunks.drop_last();
        let n = front.len() as int;
        lemma_bytes_before_prefix(chunks, front, n);
        lemma_first_excess(front, length);
        lemma_joined_len(front);
        if first_excess(front, length) is Some {
            let i = choose|i: int|
                0 <= i < front.len() && bytes_before(front, i) <= length
                    < #[trigger] bytes_before(front, i + 1) && first_excess(front, length) == Some(
                    VortexError::StreamTooLong {
                        returned: bytes_before(front, i + 1) as usize,
                        expected: length,
                    },
                );
            lemma_bytes_before_prefix(chunks, front, i);
            lemma_bytes_before_prefix(chunks, front, i + 1);
            assert(bytes_before(chunks, i + 1) == bytes_before(front, i + 1));
        } else if first_excess(chunks, length) is Some {
            assert(bytes_before(chunks, n + 1) > length);
        }
    }
}

/// Reading a range from a stream succeeds exactly if the chunks have as many bytes as the range.
/// What is read then has every byte of every chunk in its place. If the chunks have more bytes, the
/// error tells how many there were with the first chunk that was too much; if they have fewer, it
/// tells how many there were.
pub proof fn lemma_read_stream(chunks: Seq<Seq<u8>>, length: usize)
    requires
        bytes_before(chunks, chunks.len() as int) <= usize::MAX,
    ensures
        ({
            let total = bytes_before(chunks, chunks.len() as int);
            match read_outcome(chunks, length) {
                Ok(bytes) => {
                    &&& total == length
                    &&& bytes.len() == length
                    &&& forall|i: int, k: int|
                        0 <= i < chunks.len() && 0 <= k < chunks[i].len()
                            ==> bytes[bytes_before(chunks, i) + k] == #[trigger] chunks[i][k]
                },
                Err(VortexError::StreamTooLong { returned, expected }) => {
                    &&& total > length
                    &&& expected == length
                    &&& exists|i: int|
                        0 <= i < chunks.len() && bytes_before(chunks, i) <= length
                            < #[trigger] bytes_before(chunks, i + 1) && returned == bytes_before(
                            chunks,
                            i + 1,
                        )
                },
                Err(VortexError::StreamLength { returned, expected }) => {
                    &&& total < length
                    &&& expected == length
                    &&& returned == total
                },
                Err(_) => false,
            }
        }),
{
    lemma_joined_len(chunks);
    lemma_first_excess(chunks, length);
    assert forall|i: int, k: int|
        0 <= i < chunks.len() && 0 <= k < chunks[i].len() implies joined(chunks)[bytes_before(
        chunks,
        i,
    ) + k] == #[trigger] chunks[i][k] by {
        lemma_joined_byte(chunks, i, k);
    }
    if first_excess(chunks, length) is Some {
        let i = choose|i: int|
            0 <= i < chunks.len() && bytes_before(chunks, i) <= length
                < #[trigger] bytes_before(chunks, i + 1) && first_excess(chunks, length) == Some(
                VortexError::StreamTooLong {
                    returned: bytes_before(chunks, i + 1) as usize,
                    expected: length,
                },
            );
        lemma_bytes_before_grows(chunks, i + 1, chunks.len() as int);
    }
}

/// A byte range that is being read from a stream.
pub struct RangeBuffer {
    bytes: Vec<u8>,
    length: usize,
    chunks: Ghost<Seq<Seq<u8>>>,
}

impl RangeBuffer {
    /// The chunks that have been taken in.
    pub closed spec fn chunks_spec(self) -> Seq<Seq<u8>> {
        self.chunks@
    }

    /// The number of bytes that the range has.
    pub closed spec fn length_spec(self) -> usize {
        self.length
    }

    /// The bytes that have been read.
    pub closed spec fn read_spec(self) -> Seq<u8> {
        self.bytes@
    }

    /// What has been read are the chunks so far, none of which was too long.
    pub closed spec fn wf(self) -> bool {
        &&& self.bytes@ == joined(self.chunks@)
        &&& first_excess(self.chunks@, self.length) is None
    }

    /// A range of `length` bytes of which nothing has been read.
    pub fn with_length(length: usize) -> (r: RangeBuffer)
        ensures
            r.wf(),
            r.chunks_spec() == Seq::<Seq<u8>>::empty(),
            r.length_spec() == length,
            r.read_spec() == Seq::<u8>::empty(),
    {
        RangeBuffer { bytes: Vec::with_capacity(length), length, chunks: Ghost(Seq::empty()) }
    }

    /// Takes in the next chunk; fails if the stream then has more bytes than the range.
    pub fn push(&mut self, chunk: &[u8]) -> (r: VortexResult<()>)
        requires
            old(self).wf(),
            joined(old(self).chunks_spec()).len() + chunk@.len() <= usize::MAX,
        ensures
            final(self).length_spec() == old(self).length_spec(),
            r is Ok <==> old(self).read_spec().len() + chunk@.len() <= old(self).length_spec(),
            r is Ok ==> final(self).read_spec() == old(self).read_spec() + chunk@,
            r is Err ==> final(self).read_spec() == old(self).read_spec(),
            match first_excess(old(self).chunks_spec().push(chunk@), old(self).length_spec()) {
                Some(e) => {
                    &&& r == Err::<(), VortexError>(e)
                    &&& final(self).wf()
                    &&& final(self).chunks_spec() == old(self).chunks_spec()
                },
                None => {
                    &&& r is Ok
                    &&& final(self).wf()
                    &&& final(self).chunks_spec() == old(self).chunks_spec().push(chunk@)
                },
            },
    {
        let ghost before = self.chunks@;
        let ghost after = before.push(chunk@);
        proof {
            assert(after.drop_last() =~= before);
            assert(after.last() == chunk@);
        }
        let end: usize = self.bytes.len() + chunk.len();
        if end > self.length {
            return Err(VortexError::StreamTooLong { returned: end, expected: self.length });
        }
        let mut i: usize = 0;
        while i < chunk.len()
            invariant
                i <= chunk@.len(),
                self.bytes@ == joined(before) + chunk@.take(i as int),
                self.length == old(self).length,
            decreases chunk@.len() - i,
        {
            self.bytes.push(chunk[i]);
            i = i + 1;
            assert(self.bytes@ =~= joined(before) + chunk@.take(i as int));
        }
        assert(chunk@.take(i as int) =~= chunk@);
        self.chunks = Ghost(after);
        Ok(())
    }

    /// Ends the stream; fails if the range is not complete.
    pub fn finish(self) -> (r: VortexResult<Vec<u8>>)
        requires
            self.wf(),
        ensures
            match read_outcome(self.chunks_spec(), self.length_spec()) {
                Ok(bytes) => r matches Ok(v) && v@ == bytes,
                Err(e) => r == Err::<Vec<u8>, VortexError>(e),
            },
            r is Ok <==> self.read_spec().len() == self.length_spec(),
            r matches Ok(v) ==> v@ == self.read_spec(),
    {
        proof {
            lemma_no_excess(self.chunks@, self.length);
        }
        if self.bytes.len() != self.length {
            return Err(
                VortexError::StreamLength { returned: self.bytes.len(), expected: self.length },
            );
        }
        Ok(self.bytes)
    }
}

} // verus!
