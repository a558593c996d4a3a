//! What holds of the chunk pool across adjustments.

use crate::allocator::{is_update, Tick};
use crate::chunk::{Chunk, WaitOutcome};
use crate::pool::{
    chunk_count, chunk_size, elapsed, guard_blocks, held_total, is_adjustment, kept,
    release_count, residual, settled_all, Adjustment, GIB, MIB, NANOS_PER_SEC, RATE_LIMIT_BYTES,
    SINGLE_CHUNK_BYTES,
};
use vstd::prelude::*;

verus! {

/// The time of the last admitted adjustment once an adjustment by `delta` was
/// asked for at `now`.
pub open spec fn last_after(last: Option<u64>, now: u64, delta: int) -> Option<u64> {
    if guard_blocks(last, now, delta) {
        last
    } else {
        Some(now)
    }
}

/// Whether each of `chunks` is live and of `size` bytes.
pub open spec fn all_live_of(chunks: Seq<Chunk>, size: nat) -> bool {
    forall|i: int| 0 <= i < chunks.len() ==> (#[trigger] chunks[i]).live() && chunks[i].size == size
}

/// The bytes by which the pool stays below its target when `delta` bytes are
/// allocated in chunks: what the even split leaves out.
pub open spec fn shortfall(delta: int) -> int {
    delta - chunk_count(delta) * chunk_size(delta)
}

/// Chunks that are all live and of one size account for their number times
/// that size.
pub proof fn lemma_held_total_uniform(chunks: Seq<Chunk>, size: nat)
    requires
        all_live_of(chunks, size),
    ensures
        held_total(chunks) == chunks.len() * size,
    decreases chunks.len(),
{
    if chunks.len() > 0 {
        let rest = chunks.drop_last();
        assert forall|i: int| 0 <= i < rest.len() implies (#[trigger] rest[i]).live()
            && rest[i].size == size by {
            assert(rest[i] == chunks[i]);
        }
        lemma_held_total_uniform(rest, size);
        assert(chunks.last().held() == size);
        assert(chunks.len() * size == rest.len() * size + size) by (nonlinear_arith)
            requires
                chunks.len() == rest.len() + 1,
        ;
    } else {
        assert(chunks.len() * size == 0) by (nonlinear_arith)
            requires
                chunks.len() == 0,
        ;
    }
}

/// Two runs of chunks, one after the other, account for the sum of what each
/// accounts for.
pub proof fn lemma_held_total_concat(a: Seq<Chunk>, b: Seq<Chunk>)
    ensures
        held_total(a + b) == held_total(a) + held_total(b),
    decreases b.len(),
{
    if b.len() == 0 {
        assert(a + b == a);
    } else {
        lemma_held_total_concat(a, b.drop_last());
        assert((a + b).drop_last() == a + b.drop_last());
        assert((a + b).last() == b.last());
    }
}

/// The rate limit. When an adjustment by less than two mebibytes, either
/// way, is asked for twice with less than a second between the two requests,
/// the second request is held back, so by the contract of the adjustment it
/// leaves the pool as it is and asks for nothing.
///
/// This is stated for the pair of requests of which the first was admitted,
/// or of which the second comes less than a second after the last admitted
/// adjustment. (A first request that was itself held back does not restart
/// the clock, so the second may be admitted once the second is full.)
pub proof fn law_rate_limit_guard(last: Option<u64>, first_at: u64, second_at: u64, delta: int)
    requires
        -RATE_LIMIT_BYTES < delta < RATE_LIMIT_BYTES,
        elapsed(first_at, second_at) < NANOS_PER_SEC,
        guard_blocks(last, first_at, delta) ==> elapsed(last->0, second_at) < NANOS_PER_SEC,
    ensures
        guard_blocks(last_after(last, first_at, delta), second_at, delta),
{
}

/// The first adjustment of a pool is never held back: whatever the time and
/// however small the request, a pool that was never adjusted carries it out,
/// and notes the time.
pub proof fn law_first_adjustment_is_admitted(now: u64, delta: int)
    ensures
        !guard_blocks(None, now, delta),
        last_after(None, now, delta) == Some(now),
{
}

/// Shrinking is last in, first out. From a pool of live chunks of `size`
/// bytes each, a shrink by `k` times `size` releases exactly the newest `k`
/// chunks, keeps the others in their order, and leaves nothing to allocate
/// anew.
pub proof fn law_lifo_shrink(chunks: Seq<Chunk>, size: nat, k: nat)
    requires
        size > 0,
        k <= chunks.len(),
        all_live_of(chunks, size),
    ensures
        release_count(chunks, (k * size) as int) == k,
        kept(chunks, -(k * size)) == chunks.take(chunks.len() - k),
        residual(chunks, -(k * size)) == 0,
        chunk_count(residual(chunks, -(k * size))) == 0,
    decreases k,
{
    lemma_release_uniform(chunks, size, k);
    let stay = chunks.take(chunks.len() - k);
    let go = chunks.skip(chunks.len() - k);
    assert(chunks == stay + go);
    lemma_held_total_concat(stay, go);
    assert forall|i: int| 0 <= i < go.len() implies (#[trigger] go[i]).live() && go[i].size
        == size by {
        assert(go[i] == chunks[chunks.len() - k + i]);
    }
    lemma_held_total_uniform(go, size);
    assert(-(-(k * size)) == k * size);
}

/// From live chunks of `size` bytes each, a need of `k` times `size` bytes
/// is met by exactly `k` of them.
pub proof fn lemma_release_uniform(chunks: Seq<Chunk>, size: nat, k: nat)
    requires
        size > 0,
        k <= chunks.len(),
        all_live_of(chunks, size),
    ensures
        release_count(chunks, (k * size) as int) == k,
    decreases k,
{
    if k == 0 {
        assert(k * size == 0) by (nonlinear_arith)
            requires
                k == 0,
        ;
    } else {
        let rest = chunks.drop_last();
        assert(k * size > 0 && k * size - size == (k - 1) * size) by (nonlinear_arith)
            requires
                k > 0,
                size > 0,
        ;
        assert forall|i: int| 0 <= i < rest.len() implies (#[trigger] rest[i]).live()
            && rest[i].size == size by {
            assert(rest[i] == chunks[i]);
        }
        assert(chunks.last().held() == size);
        lemma_release_uniform(rest, size, (k - 1) as nat);
    }
}

/// The partition rule for a growth of `allocate` bytes: below sixteen
/// mebibytes one chunk of that size; from there up to a gibibyte, and up to
/// two, two chunks of half the size; from `n` gibibytes up to the next, for
/// `n` of two or more, `n` chunks of an `n`-th of the size. On an empty pool
/// the growth is all there is to allocate, and nothing is released.
pub proof fn law_partition(allocate: int, n: int)
    requires
        allocate > 0,
    ensures
        allocate < 16 * MIB ==> chunk_count(allocate) == 1 && chunk_size(allocate) == allocate,
        16 * MIB <= allocate < 1024 * MIB ==> chunk_count(allocate) == 2 && chunk_size(allocate)
            == allocate / 2,
        1024 * MIB <= allocate < 2 * GIB ==> chunk_count(allocate) == 2 && chunk_size(allocate)
            == allocate / 2,
        n >= 2 && n * GIB <= allocate < (n + 1) * GIB ==> chunk_count(allocate) == n
            && chunk_size(allocate) == allocate / n,
        release_count(Seq::<Chunk>::empty(), -allocate) == 0,
        kept(Seq::<Chunk>::empty(), allocate) == Seq::<Chunk>::empty(),
        residual(Seq::<Chunk>::empty(), allocate) == allocate,
{
    assert(kept(Seq::<Chunk>::empty(), allocate) == Seq::<Chunk>::empty());
    if n >= 2 && n * GIB <= allocate < (n + 1) * GIB {
        assert(allocate / (GIB as int) == n) by (nonlinear_arith)
            requires
                n * GIB <= allocate < (n + 1) * GIB,
                GIB == 1_073_741_824,
        ;
    }
}

/// The chunks of a split hold no more, all together, than was to be
/// allocated.
pub proof fn lemma_split_fits(delta: int)
    requires
        delta >= 0,
    ensures
        chunk_count(delta) * chunk_size(delta) <= delta,
{
    lemma_shortfall_bounds(delta);
}

/// The first growth of an empty pool. An empty pool that was never adjusted
/// carries out a growth of less than sixteen mebibytes at once, whatever the
/// time: nothing is released, the time is noted, and exactly one chunk of
/// that many bytes is planned.
pub proof fn law_first_growth_is_one_chunk(
    now: u64,
    allocate: int,
    after: Seq<Chunk>,
    after_last: Option<u64>,
    adj: Adjustment,
)
    requires
        0 < allocate < 16 * MIB,
        is_adjustment(Seq::<Chunk>::empty(), None, now, allocate, after, after_last, adj),
    ensures
        after == Seq::<Chunk>::empty(),
        after_last == Some(now),
        adj.released@.len() == 0,
        adj.spawn_count == 1,
        adj.spawn_size == allocate,
{
    law_partition(allocate, 0);
}

/// A pool at its target is left alone. An update toward `target` of a pool
/// that accounts for exactly `target`, during which no child was lost,
/// releases nothing and plans nothing, held back or not.
pub proof fn law_update_at_target_is_idle(
    before: Seq<Chunk>,
    last: Option<u64>,
    now: u64,
    after: Seq<Chunk>,
    after_last: Option<u64>,
    tick: Tick,
)
    requires
        settled_all(before, tick.reaped@) == before,
        is_update(before, last, now, 0, after, after_last, tick),
    ensures
        after == before,
        tick.adjustment.released@.len() == 0,
        tick.adjustment.spawn_count == 0,
{
    assert(release_count(before, 0) == 0);
    assert(before.take(before.len() as int) == before);
}

/// What the even split leaves out is less than the number of chunks, and
/// never more than what was to be allocated.
pub proof fn lemma_shortfall_bounds(delta: int)
    requires
        delta >= 0,
    ensures
        0 <= shortfall(delta) <= delta,
        delta > 0 ==> shortfall(delta) < chunk_count(delta),
        delta < SINGLE_CHUNK_BYTES ==> shortfall(delta) == 0,
{
    if delta > 0 {
        let count = chunk_count(delta) as int;
        assert(count >= 1);
        assert(0 <= delta - count * (delta / count) < count) by (nonlinear_arith)
            requires
                delta >= 0,
                count >= 1,
        ;
        if delta < SINGLE_CHUNK_BYTES {
            assert(count == 1);
            assert(delta / 1 == delta);
        }
    } else {
        assert(chunk_count(delta) * chunk_size(delta) == 0) by (nonlinear_arith)
            requires
                chunk_count(delta) == 0,
        ;
    }
}

/// A shrink releases chunks that account for at least what is asked, where
/// the pool accounts for that much; and it releases nothing where nothing is
/// asked.
pub proof fn lemma_release_meets_need(chunks: Seq<Chunk>, need: int)
    requires
        need <= held_total(chunks),
    ensures
        release_count(chunks, need) <= chunks.len(),
        need <= 0 ==> release_count(chunks, need) == 0,
        held_total(chunks) - held_total(chunks.take(chunks.len() - release_count(chunks, need)))
            >= need,
    decreases chunks.len(),
{
    if need <= 0 || chunks.len() == 0 {
        assert(chunks.take(chunks.len() as int) == chunks);
    } else {
        let rest = chunks.drop_last();
        let less = need - chunks.last().held();
        lemma_release_meets_need(rest, less);
        assert(rest.take(rest.len() - release_count(rest, less)) == chunks.take(
            chunks.len() - release_count(chunks, need),
        ));
    }
}

/// Where a resize lands. Take any pool, an admitted resize to `target`, and
/// `added`, the chunks created for it, all of them live. Then the pool that
/// is left with the new chunks accounts for `target` less the shortfall of
/// the split, which is less than the number of new chunks: the pool does not
/// overshoot the target, and it ends up that close to it.
pub proof fn law_resize_lands(chunks: Seq<Chunk>, target: nat, added: Seq<Chunk>)
    requires
        added.len() == chunk_count(residual(chunks, target - held_total(chunks))),
        all_live_of(added, chunk_size(residual(chunks, target - held_total(chunks)))),
    ensures
        residual(chunks, target - held_total(chunks)) >= 0,
        held_total(kept(chunks, target - held_total(chunks)) + added) == target - shortfall(
            residual(chunks, target - held_total(chunks)),
        ),
        0 <= shortfall(residual(chunks, target - held_total(chunks))),
        shortfall(residual(chunks, target - held_total(chunks))) <= added.len(),
        held_total(kept(chunks, target - held_total(chunks)) + added) <= target,
{
    let delta = target - held_total(chunks);
    let left = kept(chunks, delta);
    let rest = residual(chunks, delta);
    lemma_release_meets_need(chunks, -delta);
    lemma_held_total_concat(left, added);
    lemma_held_total_uniform(added, chunk_size(rest));
    lemma_shortfall_bounds(rest);
    assert(added.len() * chunk_size(rest) == chunk_count(rest) * chunk_size(rest));
}

/// Progress toward a fixed target. Take a pool that accounts for no more
/// than `target` bytes, an admitted resize to `target`, and `added`, the
/// chunks created for it, all of them live. Then nothing is released, the
/// pool with the new chunks accounts for `target` less the shortfall of the
/// split, so it does not overshoot, and it is no farther from the target
/// than before.
pub proof fn law_resize_progress(chunks: Seq<Chunk>, target: nat, added: Seq<Chunk>)
    requires
        held_total(chunks) <= target,
        added.len() == chunk_count(target - held_total(chunks)),
        all_live_of(added, chunk_size(target - held_total(chunks))),
    ensures
        kept(chunks, target - held_total(chunks)) == chunks,
        residual(chunks, target - held_total(chunks)) == target - held_total(chunks),
        held_total(chunks + added) == target - shortfall(target - held_total(chunks)),
        held_total(chunks) <= held_total(chunks + added) <= target,
{
    let delta = target - held_total(chunks);
    assert(release_count(chunks, -delta) == 0);
    assert(chunks.take(chunks.len() as int) == chunks);
    law_resize_lands(chunks, target, added);
    lemma_shortfall_bounds(delta);
}

/// The distance to a fixed target closes. Starting `delta` bytes below the
/// target, each admitted resize whose chunks all come up leaves the pool the
/// shortfall of its split below the target: always less than two mebibytes
/// after the second such resize, and nothing after the third. Where `delta`
/// is below two pebibytes, the first one already leaves less than two
/// mebibytes.
pub proof fn law_resize_converges(delta: int)
    requires
        0 <= delta <= u64::MAX,
    ensures
        shortfall(delta) <= delta,
        delta < 2 * MIB ==> shortfall(delta) == 0,
        delta < 2 * MIB * GIB ==> shortfall(delta) < 2 * MIB,
        shortfall(shortfall(delta)) < 2 * MIB,
        shortfall(shortfall(shortfall(delta))) == 0,
{
    let first = shortfall(delta);
    lemma_shortfall_bounds(delta);
    lemma_shortfall_bounds(first);
    let second = shortfall(first);
    lemma_shortfall_bounds(second);
    if delta > 0 {
        assert(chunk_count(delta) <= 0x4_0000_0000 && (delta < 2 * MIB * GIB ==> chunk_count(
            delta,
        ) <= 2 * MIB)) by (nonlinear_arith)
            requires
                0 < delta <= u64::MAX,
                chunk_count(delta) == if delta < 16_777_216 {
                    1
                } else if delta / 1_073_741_824 < 2 {
                    2
                } else {
                    delta / 1_073_741_824
                },
                MIB == 1_048_576,
                GIB == 1_073_741_824,
        ;
    }
    if first > 0 {
        assert(chunk_count(first) <= 16) by (nonlinear_arith)
            requires
                0 < first < 0x4_0000_0000,
                chunk_count(first) == if first < 16_777_216 {
                    1
                } else if first / 1_073_741_824 < 2 {
                    2
                } else {
                    first / 1_073_741_824
                },
        ;
    }
}

/// From one update to the next the pool comes no farther from a fixed
/// target. Take a pool that accounts for no more than `target`, an update
/// toward `target` during which no child was lost, and `added`, the chunks
/// created for it, all of them live. Then the pool with the new chunks lies
/// between where it was and the target. Where the update was not held back,
/// it is the shortfall of the split below the target: less than two
/// mebibytes where less than two pebibytes were missing. And a pool that was
/// less than two mebibytes below the target stays so, held back or not.
pub proof fn law_update_progress(
    before: Seq<Chunk>,
    last: Option<u64>,
    now: u64,
    target: nat,
    after: Seq<Chunk>,
    after_last: Option<u64>,
    tick: Tick,
    added: Seq<Chunk>,
)
    requires
        held_total(before) <= target,
        settled_all(before, tick.reaped@) == before,
        is_update(before, last, now, target - held_total(before), after, after_last, tick),
        added.len() == tick.adjustment.spawn_count,
        all_live_of(added, tick.adjustment.spawn_size as nat),
    ensures
        after == before,
        held_total(before) <= held_total(after + added) <= target,
        !guard_blocks(last, now, target - held_total(before)) ==> held_total(after + added)
            == target - shortfall(target - held_total(before)),
        !guard_blocks(last, now, target - held_total(before)) && target - held_total(before) < 2
            * MIB * GIB ==> target - held_total(after + added) < 2 * MIB,
        target - held_total(before) < 2 * MIB ==> target - held_total(after + added) < 2 * MIB,
{
    let delta = target - held_total(before);
    if guard_blocks(last, now, delta) {
        assert(after + added == after);
    } else {
        assert(release_count(before, -delta) == 0);
        assert(before.take(before.len() as int) == before);
        law_resize_progress(before, target, added);
        law_resize_converges_within(delta);
    }
}

/// Where less than two pebibytes are missing, the split leaves out less than
/// two mebibytes.
pub proof fn law_resize_converges_within(delta: int)
    requires
        0 <= delta,
    ensures
        delta < 2 * MIB * GIB ==> shortfall(delta) < 2 * MIB,
{
    lemma_shortfall_bounds(delta);
    if 0 < delta < 2 * MIB * GIB {
        assert(chunk_count(delta) <= 2 * MIB) by (nonlinear_arith)
            requires
                0 < delta < 2 * 1_048_576 * 1_073_741_824,
                chunk_count(delta) == if delta < 16_777_216 {
                    1
                } else if delta / 1_073_741_824 < 2 {
                    2
                } else {
                    delta / 1_073_741_824
                },
                MIB == 1_048_576,
        ;
    }
}

/// Recovery from a kill. When the wait on the child of chunk `i` reports
/// that the child is gone, the chunk is inert from then on, and the pool
/// accounts for exactly that chunk's bytes less.
pub proof fn law_reaped_chunk_leaves_total(chunks: Seq<Chunk>, i: int, outcome: WaitOutcome)
    requires
        0 <= i < chunks.len(),
        outcome.ends_child(),
    ensures
        !chunks[i].settled(outcome).live(),
        chunks[i].settled(outcome).held() == 0,
        held_total(chunks.update(i, chunks[i].settled(outcome))) == held_total(chunks)
            - chunks[i].held(),
{
    lemma_held_total_update(chunks, i, chunks[i].settled(outcome));
}

/// Replacing one chunk changes the total by the difference between what the
/// two account for.
pub proof fn lemma_held_total_update(chunks: Seq<Chunk>, i: int, chunk: Chunk)
    requires
        0 <= i < chunks.len(),
    ensures
        held_total(chunks.update(i, chunk)) == held_total(chunks) - chunks[i].held()
            + chunk.held(),
    decreases chunks.len(),
{
    let updated = chunks.update(i, chunk);
    if i == chunks.len() - 1 {
        assert(updated.drop_last() == chunks.drop_last());
    } else {
        lemma_held_total_update(chunks.drop_last(), i, chunk);
        assert(updated.drop_last() == chunks.drop_last().update(i, chunk));
    }
}

} // verus!
