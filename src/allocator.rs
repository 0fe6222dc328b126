//! Allocates executable buffers near a given address.
//!
//! [`ThreadAllocator`] is the shared allocator context: every operation runs
//! under one lock, so allocations from several threads are serialized.
//! Mapping a new pool is the caller's part: when no existing pool within
//! reach has room, [`ThreadAllocator::allocate`] reports `OutOfMemory`, the
//! caller finds a free place with a [`search::PoolSearch`], maps memory
//! there and hands it over with [`ThreadAllocator::allocate_in`].
use vstd::prelude::*;

use std::ops::Range;
use std::sync::Arc;

use vstd::rwlock::{RwLock, RwLockPredicate};

use slice_pool::sync::SlicePool;

use self::proximity::{
    in_reach, reach_hi, reach_lo, spans_wf, ExecutableMemory, PoolSpan, ProximityAllocator,
    ProximityError,
};
use self::search::PoolSearch;

pub mod proximity;
pub mod search;

verus! {

/// The furthest distance between a target and its detour (2 GiB), the
/// reach of a 32-bit relative branch.
pub const DETOUR_RANGE: usize = 0x8000_0000;

/// What the lock of a [`ThreadAllocator`] keeps true of its allocator.
pub struct PoolsInvariant {
    /// The allocator's fixed reach.
    pub max_distance: usize,
}

impl RwLockPredicate<ProximityAllocator> for PoolsInvariant {
    open spec fn inv(self, v: ProximityAllocator) -> bool {
        v.wf() && v.max_distance() == self.max_distance
    }
}

/// A thread-safe memory pool for allocating chunks close to addresses.
pub struct ThreadAllocator {
    /// The pools, under a lock.
    pools: Arc<RwLock<ProximityAllocator, PoolsInvariant>>,
    /// Largest distance between an origin and its allocation.
    max_distance: usize,
}

impl ThreadAllocator {
    #[verifier::type_invariant]
    spec fn inv(&self) -> bool {
        self.pools.pred() == PoolsInvariant { max_distance: self.max_distance }
    }

    /// Largest distance between an origin and its allocation.
    pub closed spec fn max_distance(&self) -> int {
        self.max_distance as int
    }

    /// Creates a new proximity memory allocator, without pools.
    pub fn new(max_distance: usize) -> (r: Self)
        ensures
            r.max_distance() == max_distance,
    {
        let inner = ProximityAllocator::new(max_distance);
        let lock = RwLock::new(inner, Ghost(PoolsInvariant { max_distance }));
        ThreadAllocator { pools: Arc::new(lock), max_distance }
    }

    /// Largest distance between an origin and its allocation.
    pub fn get_max_distance(&self) -> (r: usize)
        ensures
            r == self.max_distance(),
    {
        self.max_distance
    }

    /// Allocates read-, write- and executable memory within reach of
    /// `origin`, from a pool that lies wholly within reach.
    pub fn allocate(&self, origin: usize, size: usize) -> (r: Result<
        ExecutableMemory,
        ProximityError,
    >)
        ensures
            r is Ok ==> in_reach(origin as int, self.max_distance(), r->Ok_0.addr()),
            r is Ok ==> r->Ok_0.bytes().len() == size,
            r is Err ==> r->Err_0 is OutOfMemory,
    {
        proof {
            use_type_invariant(self);
        }
        let (mut inner, handle) = self.pools.acquire_write();
        let r = inner.allocate(origin, size);
        handle.release_write(inner);
        r
    }

    /// Takes `memory`, mapped by the caller near `origin`, as a new pool
    /// and allocates `size` bytes from it; see
    /// [`ProximityAllocator::allocate_in`] for when the pool is refused.
    pub fn allocate_in(&self, origin: usize, size: usize, memory: SlicePool<u8>) -> (r: Result<
        ExecutableMemory,
        ProximityError,
    >)
        ensures
            r is Ok ==> in_reach(origin as int, self.max_distance(), r->Ok_0.addr()),
            r is Ok ==> r->Ok_0.bytes().len() == size,
            r is Err ==> r->Err_0 is OutOfMemory,
    {
        proof {
            use_type_invariant(self);
        }
        let (mut inner, handle) = self.pools.acquire_write();
        let r = inner.allocate_in(origin, size, memory);
        handle.release_write(inner);
        r
    }

    /// Releases an allocation to the pool it came from. Returns whether
    /// such a pool was found; when none was, the allocation did not come
    /// from this allocator and nothing but the allocation itself is freed.
    pub fn release(&self, value: ExecutableMemory) -> (r: bool) {
        proof {
            use_type_invariant(self);
        }
        let (mut inner, handle) = self.pools.acquire_write();
        let addr = value.address();
        let found = inner.holds(addr);
        if found {
            inner.release(value);
        }
        handle.release_write(inner);
        found
    }

    /// The pools, in the order they were created.
    pub fn pools(&self) -> (r: Vec<PoolSpan>)
        ensures
            spans_wf(r@),
    {
        proof {
            use_type_invariant(self);
        }
        let handle = self.pools.acquire_read();
        let inner = handle.borrow();
        proof {
            inner.lemma_wf_spans();
        }
        let r = inner.spans_vec();
        handle.release_read();
        r
    }

    /// The search for a place for a new pool within reach of `origin`.
    pub fn search(&self, origin: usize) -> (r: PoolSearch)
        ensures
            r.after.current() == origin && r.before.current() == origin,
            r.after.lower() == reach_lo(origin as int, self.max_distance()),
            r.after.upper() == reach_hi(origin as int, self.max_distance()),
            r.before.lower() == reach_lo(origin as int, self.max_distance()),
            r.before.upper() == reach_hi(origin as int, self.max_distance()),
    {
        let lo = origin.saturating_sub(self.max_distance);
        let hi = origin.saturating_add(self.max_distance);
        PoolSearch::new(origin, lo..hi)
    }
}

/// Allocates `size` bytes of executable memory within reach of `origin`
/// from the pools of `allocator`.
pub fn allocate_executable(allocator: &ThreadAllocator, origin: usize, size: usize) -> (r: Result<
    ExecutableMemory,
    ProximityError,
>)
    ensures
        r is Ok ==> in_reach(origin as int, allocator.max_distance(), r->Ok_0.addr()),
        r is Ok ==> r->Ok_0.bytes().len() == size,
        r is Err ==> r->Err_0 is OutOfMemory,
{
    allocator.allocate(origin, size)
}

} // verus!
