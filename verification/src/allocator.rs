//! The two strategies that steer a chunk pool: toward a fixed number of
//! bytes held, or toward a fixed number of bytes left available on the
//! machine.

use crate::chunk::{Chunk, ChunkEvent};
use crate::meminfo::MemInfo;
use crate::pool::{
    guard_blocks, held_total, is_adjustment, kept, records_waits, release_count, residual,
    settled_all, Adjustment, Chunks,
};
use crate::pool_laws::lemma_split_fits;
use crate::size::{AllocationMode, Size};
use vstd::prelude::*;

verus! {

/// What one update did: the wait on every chunk, oldest chunk first, and
/// then the adjustment of the pool.
#[derive(Debug)]
pub struct Tick {
    pub reaped: Vec<ChunkEvent>,
    pub adjustment: Adjustment,
}

/// Whether `tick` is what an update at time `now` does to a pool that held
/// `before` and was last adjusted at `last`: a wait on every chunk, then an
/// adjustment by `delta` bytes, which leaves the pool holding `after`, last
/// adjusted at `after_last`.
pub open spec fn is_update(
    before: Seq<Chunk>,
    last: Option<u64>,
    now: u64,
    delta: int,
    after: Seq<Chunk>,
    after_last: Option<u64>,
    tick: Tick,
) -> bool {
    &&& records_waits(before, tick.reaped@)
    &&& is_adjustment(
        settled_all(before, tick.reaped@),
        last,
        now,
        delta,
        after,
        after_last,
        tick.adjustment,
    )
}

/// Holds a fixed number of bytes.
pub struct AbsoluteAllocator {
    bytes: usize,
    chunks: Chunks,
}

/// Holds as much as leaves a fixed number of bytes available.
pub struct UsageAllocator {
    available_bytes: i128,
    chunks: Chunks,
}

/// An allocator of either strategy.
pub enum Allocator {
    Absolute(AbsoluteAllocator),
    Usage(UsageAllocator),
}

impl AbsoluteAllocator {
    /// The bytes to hold.
    pub closed spec fn target(&self) -> usize {
        self.bytes
    }

    /// The pool.
    pub closed spec fn pool(&self) -> Chunks {
        self.chunks
    }

    /// What holds of every allocator: its pool is well formed and accounts
    /// for no more than the target.
    pub open spec fn wf(&self) -> bool {
        &&& self.pool().wf()
        &&& held_total(self.pool()@) <= self.target()
    }

    /// The bytes that the pool may still take on before it is at the target.
    pub open spec fn room(&self) -> int {
        self.target() - held_total(self.pool()@)
    }

    /// The bytes to hold for `size` on a machine whose snapshot is `mem`:
    /// the byte count, or the percentage of the total; no more than can be
    /// counted.
    pub open spec fn target_of(mem: MemInfo, size: Size) -> usize {
        if size.bytes_of(mem.total) <= usize::MAX {
            size.bytes_of(mem.total) as usize
        } else {
            usize::MAX
        }
    }

    /// An allocator that holds `size`, measured against the snapshot `mem`
    /// once and for all, with an empty pool that was never adjusted.
    pub fn new(mem: &MemInfo, size: Size) -> (allocator: AbsoluteAllocator)
        ensures
            allocator.wf(),
            allocator.target() == AbsoluteAllocator::target_of(*mem, size),
            allocator.pool()@ == Seq::<Chunk>::empty(),
            allocator.pool().last_adjusted() is None,
    {
        let wanted: u128 = size.bytes(mem.total);
        let bytes: usize = if wanted <= usize::MAX as u128 {
            wanted as usize
        } else {
            usize::MAX
        };
        AbsoluteAllocator { bytes, chunks: Chunks::new() }
    }

    /// The bytes to hold.
    pub fn target_bytes(&self) -> (bytes: usize)
        ensures
            bytes == self.target(),
    {
        self.bytes
    }

    /// The bytes that the pool accounts for.
    pub fn size(&self) -> (bytes: usize)
        requires
            self.wf(),
        ensures
            bytes == held_total(self.pool()@),
    {
        self.chunks.size()
    }

    /// One update at time `now`: reaps the chunks whose children are gone,
    /// then resizes the pool toward the target. The pool is never above the
    /// target, so nothing is released: the pool is left as the waits left it,
    /// and the chunks that are planned bring it to the target or, by less
    /// than their number, short of it.
    pub fn update(&mut self, now: u64) -> (tick: Tick)
        requires
            old(self).wf(),
        ensures
            final(self).wf(),
            final(self).target() == old(self).target(),
            is_update(
                old(self).pool()@,
                old(self).pool().last_adjusted(),
                now,
                old(self).target() - held_total(settled_all(old(self).pool()@, tick.reaped@)),
                final(self).pool()@,
                final(self).pool().last_adjusted(),
                tick,
            ),
            final(self).pool()@ == settled_all(old(self).pool()@, tick.reaped@),
            tick.adjustment.released@.len() == 0,
            held_total(final(self).pool()@) <= held_total(old(self).pool()@),
            tick.adjustment.spawn_count * tick.adjustment.spawn_size <= final(self).room(),
    {
        let reaped = self.chunks.check();
        let ghost mid = self.chunks@;
        let ghost delta = self.bytes - held_total(mid);
        let adjustment = self.chunks.resize(now, self.bytes);
        proof {
            assert(release_count(mid, -delta) == 0);
            assert(mid.take(mid.len() as int) == mid);
            assert(kept(mid, delta) == mid);
            if !guard_blocks(old(self).pool().last_adjusted(), now, delta) {
                assert(residual(mid, delta) == delta);
                lemma_split_fits(delta);
            } else {
                assert(adjustment.spawn_count * adjustment.spawn_size == 0) by (nonlinear_arith)
                    requires
                        adjustment.spawn_count == 0,
                ;
            }
        }
        Tick { reaped, adjustment }
    }

    /// Whether `chunk` can join the pool without the pool going above the
    /// target.
    pub fn has_room(&self, chunk: &Chunk) -> (r: bool)
        requires
            self.wf(),
        ensures
            r == (chunk.held() <= self.room()),
    {
        chunk.size() <= self.bytes - self.chunks.size()
    }

    /// Adds a chunk that was created for the last update.
    pub fn push(&mut self, chunk: Chunk)
        requires
            old(self).wf(),
            chunk.held() <= old(self).room(),
        ensures
            final(self).wf(),
            final(self).target() == old(self).target(),
            final(self).pool()@ == old(self).pool()@.push(chunk),
            final(self).pool().last_adjusted() == old(self).pool().last_adjusted(),
            final(self).room() == old(self).room() - chunk.held(),
    {
        self.chunks.push(chunk);
    }
}

impl UsageAllocator {
    /// The bytes to leave available; below zero where more is to be filled
    /// than there is.
    pub closed spec fn floor(&self) -> int {
        self.available_bytes as int
    }

    /// The pool.
    pub closed spec fn pool(&self) -> Chunks {
        self.chunks
    }

    /// What holds of every allocator: its pool is well formed and its floor
    /// is one that a snapshot and an amount give.
    pub open spec fn wf(&self) -> bool {
        &&& self.pool().wf()
        &&& -0x400_0000_0000_0000_0000 < self.floor() <= usize::MAX
    }

    /// The bytes that the pool may still take on before its size cannot be
    /// counted any more.
    pub open spec fn room(&self) -> int {
        usize::MAX - held_total(self.pool()@)
    }

    /// The bytes to leave available when `size` is to be filled on a machine
    /// whose snapshot is `mem`: the total less the amount.
    pub open spec fn floor_of(mem: MemInfo, size: Size) -> int {
        mem.total - size.bytes_of(mem.total)
    }

    /// An allocator that fills `size`, measured against the snapshot `mem`
    /// once and for all, with an empty pool that was never adjusted.
    pub fn new(mem: &MemInfo, size: Size) -> (allocator: UsageAllocator)
        ensures
            allocator.wf(),
            allocator.floor() == UsageAllocator::floor_of(*mem, size),
            allocator.pool()@ == Seq::<Chunk>::empty(),
            allocator.pool().last_adjusted() is None,
    {
        let fill: u128 = size.bytes(mem.total);
        assert(fill < 0x400_0000_0000_0000_0000) by {
            match size {
                Size::Bytes(bytes) => {},
                Size::Percent(percent) => {
                    assert(mem.total * percent <= 0xffff_ffff_ffff_ffff * 0xffff)
                        by (nonlinear_arith)
                        requires
                            0 <= percent <= 0xffff,
                            0 <= mem.total <= 0xffff_ffff_ffff_ffff,
                    ;
                },
            }
        }
        let available_bytes: i128 = mem.total as i128 - fill as i128;
        UsageAllocator { available_bytes, chunks: Chunks::new() }
    }

    /// The bytes to leave available.
    pub fn available_floor(&self) -> (bytes: i128)
        ensures
            bytes == self.floor(),
    {
        self.available_bytes
    }

    /// The bytes that the pool accounts for.
    pub fn size(&self) -> (bytes: usize)
        requires
            self.wf(),
        ensures
            bytes == held_total(self.pool()@),
    {
        self.chunks.size()
    }

    /// One update at time `now`, with the fresh snapshot `mem`: reaps the
    /// chunks whose children are gone, then adjusts the pool by what is
    /// available beyond the floor. More available than the floor grows the
    /// pool, less shrinks it.
    pub fn update(&mut self, mem: &MemInfo, now: u64) -> (tick: Tick)
        requires
            old(self).wf(),
        ensures
            final(self).wf(),
            final(self).floor() == old(self).floor(),
            is_update(
                old(self).pool()@,
                old(self).pool().last_adjusted(),
                now,
                mem.available - old(self).floor(),
                final(self).pool()@,
                final(self).pool().last_adjusted(),
                tick,
            ),
    {
        let delta: i128 = mem.available as i128 - self.available_bytes;
        let reaped = self.chunks.check();
        let adjustment = self.chunks.adjust(now, delta);
        Tick { reaped, adjustment }
    }

    /// Whether `chunk` can join the pool without its size running over.
    pub fn has_room(&self, chunk: &Chunk) -> (r: bool)
        requires
            self.wf(),
        ensures
            r == (chunk.held() <= self.room()),
    {
        self.chunks.has_room(chunk)
    }

    /// Adds a chunk that was created for the last update.
    pub fn push(&mut self, chunk: Chunk)
        requires
            old(self).wf(),
            chunk.held() <= old(self).room(),
        ensures
            final(self).wf(),
            final(self).floor() == old(self).floor(),
            final(self).pool()@ == old(self).pool()@.push(chunk),
            final(self).pool().last_adjusted() == old(self).pool().last_adjusted(),
    {
        self.chunks.push(chunk);
    }
}

impl Allocator {
    /// The pool of the allocator.
    pub open spec fn pool(&self) -> Chunks {
        match self {
            Allocator::Absolute(absolute) => absolute.pool(),
            Allocator::Usage(usage) => usage.pool(),
        }
    }

    /// What holds of every allocator.
    pub open spec fn wf(&self) -> bool {
        match self {
            Allocator::Absolute(absolute) => absolute.wf(),
            Allocator::Usage(usage) => usage.wf(),
        }
    }

    /// The bytes that the pool may still take on: up to the target, or up to
    /// what can be counted.
    pub open spec fn room(&self) -> int {
        match self {
            Allocator::Absolute(absolute) => absolute.room(),
            Allocator::Usage(usage) => usage.room(),
        }
    }

    /// What the allocator steers toward: the bytes to hold, or the bytes to
    /// leave available.
    pub open spec fn goal(&self) -> int {
        match self {
            Allocator::Absolute(absolute) => absolute.target() as int,
            Allocator::Usage(usage) => usage.floor(),
        }
    }

    /// The bytes that the pool accounts for.
    pub fn size(&self) -> (bytes: usize)
        requires
            self.wf(),
        ensures
            bytes == held_total(self.pool()@),
    {
        match self {
            Allocator::Absolute(absolute) => absolute.size(),
            Allocator::Usage(usage) => usage.size(),
        }
    }

    /// Whether `chunk` can join the pool: without the pool going above the
    /// target, or without its size running over.
    pub fn has_room(&self, chunk: &Chunk) -> (r: bool)
        requires
            self.wf(),
        ensures
            r == (chunk.held() <= self.room()),
    {
        match self {
            Allocator::Absolute(absolute) => absolute.has_room(chunk),
            Allocator::Usage(usage) => usage.has_room(chunk),
        }
    }

    /// Adds a chunk that was created for the last update.
    pub fn push(&mut self, chunk: Chunk)
        requires
            old(self).wf(),
            chunk.held() <= old(self).room(),
        ensures
            final(self).wf(),
            final(self).pool()@ == old(self).pool()@.push(chunk),
            final(self).pool().last_adjusted() == old(self).pool().last_adjusted(),
            (*old(self) is Absolute) == (*final(self) is Absolute),
            final(self).goal() == old(self).goal(),
    {
        match self {
            Allocator::Absolute(absolute) => absolute.push(chunk),
            Allocator::Usage(usage) => usage.push(chunk),
        }
    }
}

/// The allocator for `mode` that fills `size`, measured against the snapshot
/// `mem`, with an empty pool that was never adjusted.
pub fn new_allocator(mode: AllocationMode, mem: &MemInfo, size: Size) -> (allocator: Allocator)
    ensures
        allocator.wf(),
        allocator.pool()@ == Seq::<Chunk>::empty(),
        allocator.pool().last_adjusted() is None,
        match mode {
            AllocationMode::Absolute => allocator matches Allocator::Absolute(absolute)
                && absolute.target() == AbsoluteAllocator::target_of(*mem, size),
            AllocationMode::Usage => allocator matches Allocator::Usage(usage) && usage.floor()
                == UsageAllocator::floor_of(*mem, size),
        },
{
    match mode {
        AllocationMode::Absolute => Allocator::Absolute(AbsoluteAllocator::new(mem, size)),
        AllocationMode::Usage => Allocator::Usage(UsageAllocator::new(mem, size)),
    }
}

} // verus!
