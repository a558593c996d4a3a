//! The chunk pool: an ordered collection of chunks that is grown and shrunk
//! toward a target, newest chunk first out, with small and rapid adjustments
//! held back.
//!
//! The pool decides; it does not fork. An adjustment releases the chunks that
//! have to go and hands back how many chunks of which size are to be created.
//! The program around the library creates them and pushes each onto the pool.

use crate::chunk::{Chunk, ChunkEvent};
use vstd::prelude::*;

verus! {

/// Bytes in a mebibyte.
pub const MIB: u64 = 1_048_576;

/// Bytes in a gibibyte.
pub const GIB: u64 = 1_073_741_824;

/// Nanoseconds in a second.
pub const NANOS_PER_SEC: u64 = 1_000_000_000;

/// An adjustment smaller than this many bytes is held back while the pool
/// was adjusted less than a second ago.
pub const RATE_LIMIT_BYTES: u64 = 2_097_152;

/// A growth below this many bytes goes into a single chunk.
pub const SINGLE_CHUNK_BYTES: u64 = 16_777_216;

/// The largest adjustment, either way, that the pool computes with.
pub const DELTA_LIMIT: i128 = 0x1_0000_0000_0000_0000_0000;

/// The bytes that the chunks account for, all together.
pub open spec fn held_total(chunks: Seq<Chunk>) -> nat
    decreases chunks.len(),
{
    if chunks.len() == 0 {
        0
    } else {
        held_total(chunks.drop_last()) + chunks.last().held()
    }
}

/// The time that has passed from `last` to `now`; none if the clock reads
/// earlier than it did.
pub open spec fn elapsed(last: u64, now: u64) -> nat {
    if now >= last {
        (now - last) as nat
    } else {
        0
    }
}

/// Whether an adjustment by `delta` bytes at `now` is held back, `last`
/// being the time of the pool's last adjustment: less than a second has
/// passed since then and the adjustment is below two mebibytes. Nothing is
/// held back on a pool that was never adjusted.
pub open spec fn guard_blocks(last: Option<u64>, now: u64, delta: int) -> bool {
    match last {
        Some(at) => elapsed(at, now) < NANOS_PER_SEC && delta < RATE_LIMIT_BYTES,
        None => false,
    }
}

/// How many chunks leave the pool, counted from its newest chunk, until the
/// chunks that left account for `need` bytes or the pool is empty.
pub open spec fn release_count(chunks: Seq<Chunk>, need: int) -> nat
    decreases chunks.len(),
{
    if need <= 0 || chunks.len() == 0 {
        0
    } else {
        1 + release_count(chunks.drop_last(), need - chunks.last().held())
    }
}

/// The chunks that stay when the pool is adjusted by `delta` bytes.
pub open spec fn kept(chunks: Seq<Chunk>, delta: int) -> Seq<Chunk> {
    chunks.take(chunks.len() - release_count(chunks, -delta))
}

/// The bytes still to be allocated once the pool was shrunk for an
/// adjustment by `delta`: what the released chunks held beyond the request,
/// or the request itself where nothing was released.
pub open spec fn residual(chunks: Seq<Chunk>, delta: int) -> int {
    held_total(chunks) - held_total(kept(chunks, delta)) + delta
}

/// Into how many chunks `allocate` bytes are split: one below sixteen
/// mebibytes, else one per whole gibibyte and at least two.
pub open spec fn chunk_count(allocate: int) -> nat {
    if allocate <= 0 {
        0
    } else if allocate < SINGLE_CHUNK_BYTES {
        1
    } else if allocate / (GIB as int) < 2 {
        2
    } else {
        (allocate / (GIB as int)) as nat
    }
}

/// The size of each chunk when `allocate` bytes are split; what does not
/// divide evenly is left out.
pub open spec fn chunk_size(allocate: int) -> nat {
    if allocate <= 0 {
        0
    } else {
        (allocate / (chunk_count(allocate) as int)) as nat
    }
}

/// What an adjustment did and what is left to do: the chunks that were
/// released, newest first, and the chunks to create.
#[derive(Debug)]
pub struct Adjustment {
    /// The released chunks as they were, each with what its release reported.
    pub released: Vec<ChunkEvent>,
    /// How many chunks are to be created and pushed onto the pool.
    pub spawn_count: u64,
    /// The size of each of them, in bytes.
    pub spawn_size: usize,
}

impl Adjustment {
    /// Whether the adjustment released nothing and asks for nothing.
    pub open spec fn is_idle(&self) -> bool {
        self.released@.len() == 0 && self.spawn_count == 0 && self.spawn_size == 0
    }

    /// Whether the adjustment is the one that `delta` bytes call for on a
    /// pool that holds `chunks`.
    pub open spec fn carries_out(&self, chunks: Seq<Chunk>, delta: int) -> bool {
        &&& self.released@.len() == release_count(chunks, -delta)
        &&& forall|j: int|
            0 <= j < self.released@.len() ==> {
                &&& (#[trigger] self.released@[j]).chunk == chunks[chunks.len() - 1 - j]
                &&& self.released@[j].outcome is Some <==> chunks[chunks.len() - 1 - j].live()
            }
        &&& self.spawn_count == chunk_count(residual(chunks, delta))
        &&& self.spawn_size == chunk_size(residual(chunks, delta))
    }
}

/// The chunks once a wait on each was made, `events` holding what the wait on
/// each chunk reported.
pub open spec fn settled_all(chunks: Seq<Chunk>, events: Seq<ChunkEvent>) -> Seq<Chunk> {
    Seq::new(chunks.len(), |i: int| chunks[i].settled(events[i].outcome->0))
}

/// Whether `events` record one wait on each of `chunks`, in their order.
pub open spec fn records_waits(chunks: Seq<Chunk>, events: Seq<ChunkEvent>) -> bool {
    &&& events.len() == chunks.len()
    &&& forall|i: int|
        0 <= i < events.len() ==> (#[trigger] events[i]).chunk == chunks[i] && events[i].outcome
            is Some
}

/// Whether a pool that held `before`, last adjusted at `last`, is turned
/// into one that holds `after`, last adjusted at `after_last`, by the
/// adjustment `adj` for `delta` bytes at time `now`. A request that the rate
/// limit holds back changes nothing; any other notes the time, releases the
/// newest chunks as far as `delta` asks, and plans the new chunks.
pub open spec fn is_adjustment(
    before: Seq<Chunk>,
    last: Option<u64>,
    now: u64,
    delta: int,
    after: Seq<Chunk>,
    after_last: Option<u64>,
    adj: Adjustment,
) -> bool {
    if guard_blocks(last, now, delta) {
        after == before && after_last == last && adj.is_idle()
    } else {
        after == kept(before, delta) && after_last == Some(now) && adj.carries_out(before, delta)
    }
}

/// The chunks of a prefix account for no more than all the chunks.
pub proof fn lemma_held_total_prefix(chunks: Seq<Chunk>, k: int)
    requires
        0 <= k <= chunks.len(),
    ensures
        held_total(chunks.take(k)) <= held_total(chunks),
    decreases chunks.len() - k,
{
    if k < chunks.len() {
        lemma_held_total_prefix(chunks.drop_last(), k);
        assert(chunks.drop_last().take(k) == chunks.take(k));
    } else {
        assert(chunks.take(k) == chunks);
    }
}

/// Chunks that each account for no more than their counterpart account for
/// no more in total.
pub proof fn lemma_held_total_pointwise(a: Seq<Chunk>, b: Seq<Chunk>)
    requires
        a.len() == b.len(),
        forall|i: int| 0 <= i < a.len() ==> (#[trigger] a[i]).held() <= b[i].held(),
    ensures
        held_total(a) <= held_total(b),
    decreases a.len(),
{
    if a.len() > 0 {
        lemma_held_total_pointwise(a.drop_last(), b.drop_last());
    }
}

/// The split of `allocate` bytes into chunks: how many, and how large each.
fn partition(allocate: i128) -> (r: (u64, usize))
    requires
        allocate <= 2 * DELTA_LIMIT,
    ensures
        r.0 == chunk_count(allocate as int),
        r.1 == chunk_size(allocate as int),
{
    if allocate <= 0 {
        (0, 0)
    } else if allocate < SINGLE_CHUNK_BYTES as i128 {
        assert(chunk_count(allocate as int) == 1);
        assert(chunk_size(allocate as int) == (allocate as int) / 1);
        (1, allocate as usize)
    } else {
        let whole: i128 = allocate / (GIB as i128);
        let count: i128 = if whole < 2 {
            2
        } else {
            whole
        };
        let each: i128 = allocate / count;
        assert(each < 2 * GIB && count <= u64::MAX) by (nonlinear_arith)
            requires
                allocate >= 0,
                allocate <= 0x2_0000_0000_0000_0000_0000,
                whole == allocate / 1_073_741_824,
                count == if whole < 2 {
                    2
                } else {
                    whole
                },
                each == allocate / count,
                GIB == 1_073_741_824,
        ;
        assert(count == chunk_count(allocate as int));
        assert(chunk_size(allocate as int) == (allocate as int) / (count as int));
        (count as u64, each as usize)
    }
}

/// An ordered pool of chunks, with the time of its last adjustment. A pool
/// that was never adjusted has no such time.
pub struct Chunks {
    chunks: Vec<Chunk>,
    last_allocation: Option<u64>,
}

impl View for Chunks {
    type V = Seq<Chunk>;

    /// The chunks of the pool, oldest first.
    closed spec fn view(&self) -> Seq<Chunk> {
        self.chunks@
    }
}

impl Chunks {
    /// The time of the last adjustment that was not held back, if there was
    /// one.
    pub closed spec fn last_adjusted(&self) -> Option<u64> {
        self.last_allocation
    }

    /// What holds of every pool: the bytes it accounts for can be counted.
    pub open spec fn wf(&self) -> bool {
        held_total(self@) <= usize::MAX
    }

    /// The empty pool, which was never adjusted.
    pub fn new() -> (pool: Chunks)
        ensures
            pool.wf(),
            pool@ == Seq::<Chunk>::empty(),
            pool.last_adjusted() is None,
    {
        Chunks { chunks: Vec::new(), last_allocation: None }
    }

    /// The number of chunks in the pool, inert ones included.
    pub fn len(&self) -> (n: usize)
        ensures
            n == self@.len(),
    {
        self.chunks.len()
    }

    /// The chunks of the pool, oldest first.
    pub fn snapshot(&self) -> (chunks: Vec<Chunk>)
        ensures
            chunks@ == self@,
    {
        let mut chunks: Vec<Chunk> = Vec::new();
        let mut i: usize = 0;
        while i < self.chunks.len()
            invariant
                i <= self.chunks.len(),
                chunks@ == self.chunks@.take(i as int),
            decreases self.chunks.len() - i,
        {
            chunks.push(self.chunks[i]);
            i = i + 1;
        }
        chunks
    }

    /// The time of the last adjustment that was not held back, if there was
    /// one.
    pub fn adjusted_at(&self) -> (at: Option<u64>)
        ensures
            at == self.last_adjusted(),
    {
        self.last_allocation
    }

    /// The bytes that the pool accounts for: the sizes of its live chunks.
    pub fn size(&self) -> (bytes: usize)
        requires
            self.wf(),
        ensures
            bytes == held_total(self@),
    {
        let mut bytes: usize = 0;
        let mut i: usize = 0;
        while i < self.chunks.len()
            invariant
                i <= self.chunks.len(),
                bytes == held_total(self.chunks@.take(i as int)),
                held_total(self.chunks@) <= usize::MAX,
            decreases self.chunks.len() - i,
        {
            proof {
                lemma_held_total_prefix(self.chunks@, i + 1);
                assert(self.chunks@.take(i + 1).drop_last() == self.chunks@.take(i as int));
            }
            bytes = bytes + self.chunks[i].size();
            i = i + 1;
        }
        assert(self.chunks@.take(i as int) == self.chunks@);
        bytes
    }

    /// Whether `chunk` can join the pool without the pool's size running
    /// over.
    pub fn has_room(&self, chunk: &Chunk) -> (r: bool)
        requires
            self.wf(),
        ensures
            r == (held_total(self@) + chunk.held() <= usize::MAX),
    {
        chunk.size() <= usize::MAX - self.size()
    }

    /// Reaps, without blocking, every chunk whose child has terminated.
    /// Returns one event per chunk, oldest chunk first.
    pub fn check(&mut self) -> (events: Vec<ChunkEvent>)
        requires
            old(self).wf(),
        ensures
            final(self).wf(),
            final(self).last_adjusted() == old(self).last_adjusted(),
            records_waits(old(self)@, events@),
            final(self)@ == settled_all(old(self)@, events@),
            held_total(final(self)@) <= held_total(old(self)@),
    {
        let mut events: Vec<ChunkEvent> = Vec::new();
        let ghost before = self.chunks@;
        let mut i: usize = 0;
        while i < self.chunks.len()
            invariant
                i <= self.chunks.len(),
                self.chunks@.len() == before.len(),
                self.last_allocation == old(self).last_allocation,
                events@.len() == i,
                forall|k: int|
                    0 <= k < i ==> {
                        &&& (#[trigger] events@[k]).chunk == before[k]
                        &&& events@[k].outcome is Some
                        &&& self.chunks@[k] == before[k].settled(events@[k].outcome->0)
                    },
                forall|k: int| i <= k < before.len() ==> self.chunks@[k] == before[k],
            decreases self.chunks.len() - i,
        {
            let mut chunk = self.chunks[i];
            let outcome = chunk.check();
            events.push(ChunkEvent { chunk: self.chunks[i], outcome: Some(outcome) });
            self.chunks.set(i, chunk);
            i = i + 1;
        }
        proof {
            assert forall|k: int| 0 <= k < before.len() implies (#[trigger] self.chunks@[k]).held()
                <= before[k].held() by {
                assert(events@[k].outcome is Some);
            }
            lemma_held_total_pointwise(self.chunks@, before);
        }
        events
    }

    /// Adds a chunk that was created for the last adjustment as the newest
    /// chunk of the pool.
    pub fn push(&mut self, chunk: Chunk)
        requires
            old(self).wf(),
            held_total(old(self)@) + chunk.held() <= usize::MAX,
        ensures
            final(self).wf(),
            final(self)@ == old(self)@.push(chunk),
            final(self).last_adjusted() == old(self).last_adjusted(),
            held_total(final(self)@) == held_total(old(self)@) + chunk.held(),
    {
        self.chunks.push(chunk);
        assert(self.chunks@.drop_last() == old(self).chunks@);
    }

    /// Adjusts the pool by `delta` bytes at time `now`, as [`adjust_by`]
    /// does, for a `delta` of any sign and size that the pool computes with.
    ///
    /// [`adjust_by`]: Chunks::adjust_by
    pub(crate) fn adjust(&mut self, now: u64, delta: i128) -> (adj: Adjustment)
        requires
            old(self).wf(),
            -DELTA_LIMIT <= delta <= DELTA_LIMIT,
        ensures
            final(self).wf(),
            is_adjustment(
                old(self)@,
                old(self).last_adjusted(),
                now,
                delta as int,
                final(self)@,
                final(self).last_adjusted(),
                adj,
            ),
    {
        match self.last_allocation {
            Some(at) => {
                let since: u64 = if now >= at {
                    now - at
                } else {
                    0
                };
                if since < NANOS_PER_SEC && delta < RATE_LIMIT_BYTES as i128 {
                    return Adjustment { released: Vec::new(), spawn_count: 0, spawn_size: 0 };
                }
            },
            None => {},
        }
        self.last_allocation = Some(now);

        let ghost before = self.chunks@;
        let need: i128 = -delta;
        let mut released: Vec<ChunkEvent> = Vec::new();
        let mut freed: usize = 0;
        while (freed as i128) < need && self.chunks.len() > 0
            invariant
                held_total(before) <= usize::MAX,
                need == -delta,
                released@.len() <= before.len(),
                self.chunks@ == before.take(before.len() - released@.len()),
                self.last_allocation == Some(now),
                freed + held_total(self.chunks@) == held_total(before),
                release_count(before, need as int) == released@.len() + release_count(
                    self.chunks@,
                    need - freed,
                ),
                forall|j: int|
                    0 <= j < released@.len() ==> {
                        &&& (#[trigger] released@[j]).chunk == before[before.len() - 1 - j]
                        &&& released@[j].outcome is Some <==> before[before.len() - 1 - j].live()
                    },
            decreases self.chunks.len(),
        {
            let ghost current = self.chunks@;
            let mut chunk = self.chunks.pop().unwrap();
            let (bytes, event) = chunk.free();
            assert(current.drop_last() == before.take(before.len() - released@.len() - 1));
            freed = freed + bytes;
            released.push(event);
        }
        let allocate: i128 = freed as i128 + delta;
        let (spawn_count, spawn_size) = partition(allocate);
        proof {
            lemma_held_total_prefix(before, before.len() - released@.len());
        }
        Adjustment { released, spawn_count, spawn_size }
    }

    /// Adjusts the pool by `delta` bytes at time `now`.
    ///
    /// While less than a second has passed since the last adjustment that
    /// was not held back and `delta` is below two mebibytes, nothing happens;
    /// a pool that was never adjusted holds nothing back. Otherwise the time is
    /// noted and, for a negative `delta`, the newest chunks are released
    /// until they account for `-delta` bytes or the pool is empty. What they
    /// held beyond that, or a positive `delta` itself, is to be allocated
    /// anew: the result says in how many chunks of which size.
    pub fn adjust_by(&mut self, now: u64, delta: i64) -> (adj: Adjustment)
        requires
            old(self).wf(),
        ensures
            final(self).wf(),
            is_adjustment(
                old(self)@,
                old(self).last_adjusted(),
                now,
                delta as int,
                final(self)@,
                final(self).last_adjusted(),
                adj,
            ),
    {
        self.adjust(now, delta as i128)
    }

    /// Adjusts the pool toward `size` bytes at time `now`: by the difference
    /// between `size` and what the pool accounts for.
    pub fn resize(&mut self, now: u64, size: usize) -> (adj: Adjustment)
        requires
            old(self).wf(),
        ensures
            final(self).wf(),
            is_adjustment(
                old(self)@,
                old(self).last_adjusted(),
                now,
                size - held_total(old(self)@),
                final(self)@,
                final(self).last_adjusted(),
                adj,
            ),
    {
        let delta: i128 = size as i128 - self.size() as i128;
        self.adjust(now, delta)
    }
}

} // verus!
