//! The rolling buffer of recent samples.
//!
//! A buffer is modelled as the sequence of its samples, oldest first. The
//! only way it changes is `append`: the chunk is added at the back, and when
//! the buffer has then grown past sixteen chunks of that size, one chunk's
//! worth of the oldest samples is dropped from the front.

use vstd::prelude::*;

verus! {

/// How many chunks of the size just appended the buffer may hold before the
/// oldest samples are dropped.
pub const WINDOW_CHUNKS: usize = 16;

/// The eviction step on a buffer `samples`, after a chunk of `chunk_len`
/// samples went in: past `chunk_len * 16` samples, the oldest `chunk_len`
/// leave; otherwise nothing changes.
pub open spec fn evicted(samples: Seq<i16>, chunk_len: nat) -> Seq<i16> {
    if samples.len() > chunk_len * 16 {
        samples.skip(chunk_len as int)
    } else {
        samples
    }
}

/// How many samples the eviction step removes from the front of `samples`.
pub open spec fn evicted_count(samples: Seq<i16>, chunk_len: nat) -> nat {
    if samples.len() > chunk_len * 16 {
        chunk_len
    } else {
        0
    }
}

/// The buffer after `chunk` is appended to `samples` and the eviction step
/// has run.
pub open spec fn appended(samples: Seq<i16>, chunk: Seq<i16>) -> Seq<i16> {
    evicted(samples + chunk, chunk.len())
}

/// The buffer after every chunk of `chunks` was appended to `samples`, in
/// order.
pub open spec fn appended_all(samples: Seq<i16>, chunks: Seq<Seq<i16>>) -> Seq<i16>
    decreases chunks.len(),
{
    if chunks.len() == 0 {
        samples
    } else {
        appended(appended_all(samples, chunks.drop_last()), chunks.last())
    }
}

/// Eviction only ever removes from the front: what is left is the old buffer
/// without its first `evicted_count` samples, each of the others at its old
/// place in the order.
pub proof fn lemma_eviction_drops_oldest(samples: Seq<i16>, chunk_len: nat)
    ensures
        evicted_count(samples, chunk_len) <= samples.len(),
        evicted(samples, chunk_len) == samples.skip(evicted_count(samples, chunk_len) as int),
        evicted(samples, chunk_len).len() == samples.len() - evicted_count(samples, chunk_len),
        forall|i: int|
            0 <= i < evicted(samples, chunk_len).len() ==> #[trigger] evicted(samples, chunk_len)[i]
                == samples[i + evicted_count(samples, chunk_len)],
{
    assert(samples.skip(0) =~= samples);
}

/// After an append the chunk just added is the tail of the buffer, whole and
/// in order, whether or not samples were evicted.
pub proof fn lemma_append_keeps_chunk_at_tail(samples: Seq<i16>, chunk: Seq<i16>)
    ensures
        appended(samples, chunk).len() >= chunk.len(),
        appended(samples, chunk).skip(appended(samples, chunk).len() - chunk.len()) == chunk,
{
    let joined = samples + chunk;
    let after = appended(samples, chunk);
    if joined.len() > chunk.len() * 16 {
        assert(after.len() == samples.len());
    }
    assert(after.skip(after.len() - chunk.len()) =~= chunk);
}

/// After any run of appends the chunk appended last is the tail of the
/// buffer, whole and in order.
pub proof fn lemma_last_chunk_at_tail(samples: Seq<i16>, chunks: Seq<Seq<i16>>)
    requires
        chunks.len() > 0,
    ensures
        appended_all(samples, chunks).len() >= chunks.last().len(),
        appended_all(samples, chunks).skip(
            appended_all(samples, chunks).len() - chunks.last().len(),
        ) == chunks.last(),
{
    lemma_append_keeps_chunk_at_tail(appended_all(samples, chunks.drop_last()), chunks.last());
}

/// An append leaves the buffer within sixteen times the chunk's length
/// whenever the buffer was within that bound before it.
pub proof fn lemma_append_bounded(samples: Seq<i16>, chunk: Seq<i16>)
    requires
        samples.len() <= chunk.len() * 16,
    ensures
        appended(samples, chunk).len() <= chunk.len() * 16,
{
}

/// A buffer that was already longer than sixteen times the chunk's length
/// keeps its length through the append: one chunk goes in and one chunk's
/// worth of the oldest samples leaves.
pub proof fn lemma_append_over_bound(samples: Seq<i16>, chunk: Seq<i16>)
    requires
        samples.len() > chunk.len() * 16,
    ensures
        appended(samples, chunk).len() == samples.len(),
        appended(samples, chunk) == (samples + chunk).skip(chunk.len() as int),
{
}

/// Chunks of one common length, appended one after another to a buffer that
/// is within sixteen such chunks, never take it past sixteen such chunks.
pub proof fn lemma_appended_all_bounded(samples: Seq<i16>, chunks: Seq<Seq<i16>>, chunk_len: nat)
    requires
        samples.len() <= chunk_len * 16,
        forall|i: int| 0 <= i < chunks.len() ==> (#[trigger] chunks[i]).len() == chunk_len,
    ensures
        appended_all(samples, chunks).len() <= chunk_len * 16,
    decreases chunks.len(),
{
    if chunks.len() > 0 {
        lemma_appended_all_bounded(samples, chunks.drop_last(), chunk_len);
        lemma_append_bounded(appended_all(samples, chunks.drop_last()), chunks.last());
    }
}

/// Appending chunks whose lengths never shrink, starting from an empty
/// buffer, leaves the buffer within sixteen times the last chunk's length.
pub proof fn lemma_appended_all_bounded_by_last(chunks: Seq<Seq<i16>>)
    requires
        chunks.len() > 0,
        forall|i: int, j: int|
            0 <= i <= j < chunks.len() ==> (#[trigger] chunks[i]).len() <= (#[trigger] chunks[j]).len(),
    ensures
        appended_all(Seq::<i16>::empty(), chunks).len() <= chunks.last().len() * 16,
    decreases chunks.len(),
{
    let before = chunks.drop_last();
    if before.len() > 0 {
        assert(before.last() == chunks[chunks.len() - 2]);
        lemma_appended_all_bounded_by_last(before);
        assert(before.last().len() <= chunks.last().len());
    } else {
        assert(appended_all(Seq::<i16>::empty(), before) =~= Seq::<i16>::empty());
    }
    lemma_append_bounded(appended_all(Seq::<i16>::empty(), before), chunks.last());
}

/// The most recent samples of a stream, oldest first.
pub struct WindowBuffer {
    samples: Vec<i16>,
}

impl View for WindowBuffer {
    type V = Seq<i16>;

    closed spec fn view(&self) -> Seq<i16> {
        self.samples@
    }
}

impl WindowBuffer {
    /// An empty buffer.
    pub fn new() -> (buffer: WindowBuffer)
        ensures
            buffer@ == Seq::<i16>::empty(),
    {
        WindowBuffer { samples: Vec::new() }
    }

    /// The number of samples held.
    pub fn len(&self) -> (n: usize)
        ensures
            n == self@.len(),
    {
        self.samples.len()
    }

    /// Whether no sample is held.
    pub fn is_empty(&self) -> (empty: bool)
        ensures
            empty == (self@.len() == 0),
    {
        self.samples.len() == 0
    }

    /// Runs the eviction step for a chunk of `chunk_len` samples: if more
    /// than `chunk_len * 16` samples are held, the oldest `chunk_len` are
    /// dropped and the rest keep their order. Returns how many were dropped.
    pub fn evict(&mut self, chunk_len: usize) -> (dropped: usize)
        ensures
            final(self)@ == evicted(old(self)@, chunk_len as nat),
            dropped == evicted_count(old(self)@, chunk_len as nat),
            final(self)@ == old(self)@.skip(dropped as int),
    {
        let len: usize = self.samples.len();
        let over: bool = match chunk_len.checked_mul(WINDOW_CHUNKS) {
            Some(max_len) => len > max_len,
            None => false,
        };
        if over {
            let kept: Vec<i16> = self.samples.split_off(chunk_len);
            self.samples = kept;
            chunk_len
        } else {
            assert(old(self)@.skip(0) =~= old(self)@);
            0
        }
    }

    /// Appends `chunk` at the back and runs the eviction step for it.
    pub fn append(&mut self, chunk: &[i16])
        ensures
            final(self)@ == appended(old(self)@, chunk@),
    {
        self.samples.extend_from_slice(chunk);
        assert(self.samples@ =~= old(self)@ + chunk@);
        let _ = self.evict(chunk.len());
    }

    /// A copy of the samples held, oldest first.
    pub fn snapshot(&self) -> (copy: Vec<i16>)
        ensures
            copy@ == self@,
    {
        self.samples.clone()
    }
}

} // verus!
