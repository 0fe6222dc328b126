//! The proximity allocator: executable memory pools placed near the code
//! that will jump into them, and allocations carved out of those pools.
use vstd::prelude::*;

use slice_pool::sync::{SliceBox, SlicePool};

verus! {

#[verifier::external_type_specification]
#[verifier::external_body]
#[verifier::reject_recursive_types(T)]
pub struct ExSlicePool<T: Send>(SlicePool<T>);

#[verifier::external_type_specification]
#[verifier::external_body]
#[verifier::reject_recursive_types(T)]
pub struct ExSliceBox<T: Send + 'static>(SliceBox<T>);

#[verifier::external_type_specification]
#[verifier::external_body]
pub struct ExMapError(mmap::MapError);

#[verifier::external_type_specification]
#[verifier::external_body]
pub struct ExRegionError(region::Error);

/// Address of the first byte of a pool's memory.
pub uninterp spec fn pool_base(p: SlicePool<u8>) -> int;

/// Number of bytes of a pool's memory.
pub uninterp spec fn pool_len(p: SlicePool<u8>) -> int;

/// Address of the first byte of an allocation.
pub uninterp spec fn box_addr(b: SliceBox<u8>) -> int;

/// The bytes that an allocation holds.
pub uninterp spec fn box_bytes(b: SliceBox<u8>) -> Seq<u8>;

/// Relies on `SlicePool::as_ptr`: the address of the pool's memory.
#[verifier::external_body]
fn pool_addr(p: &SlicePool<u8>) -> (r: usize)
    ensures
        r == pool_base(*p),
{
    p.as_ptr() as usize
}

/// Relies on `SlicePool::len`: the length of the pool's memory, a slice,
/// which as every slice does not run past the end of the address space.
#[verifier::external_body]
fn pool_size(p: &SlicePool<u8>) -> (r: usize)
    ensures
        r == pool_len(*p),
        pool_base(*p) + r <= usize::MAX,
{
    p.len()
}

/// Relies on `SlicePool::alloc`: an allocation is a run of `size` bytes of
/// the pool's memory.
#[verifier::external_body]
fn pool_alloc(p: &SlicePool<u8>, size: usize) -> (r: Option<SliceBox<u8>>)
    ensures
        r is Some ==> pool_base(*p) <= box_addr(r->Some_0),
        r is Some ==> box_addr(r->Some_0) + size <= pool_base(*p) + pool_len(*p),
        r is Some ==> box_bytes(r->Some_0).len() == size,
{
    p.alloc(size)
}

/// Relies on the slice that `SliceBox` dereferences to: its address.
#[verifier::external_body]
fn box_address(b: &SliceBox<u8>) -> (r: usize)
    ensures
        r == box_addr(*b),
{
    b.as_ptr() as usize
}

/// Relies on the slice that `SliceBox` dereferences to: its length.
#[verifier::external_body]
fn box_length(b: &SliceBox<u8>) -> (r: usize)
    ensures
        r == box_bytes(*b).len(),
{
    b.len()
}

/// Relies on the slice that `SliceBox` dereferences to: a copy of its bytes.
#[verifier::external_body]
fn box_copy(b: &SliceBox<u8>) -> (r: Vec<u8>)
    ensures
        r@ == box_bytes(*b),
{
    b.to_vec()
}

/// Relies on the mutable slice that `SliceBox` dereferences to: stores one
/// byte; the allocation stays where it is.
#[verifier::external_body]
fn box_store(b: &mut SliceBox<u8>, i: usize, v: u8)
    requires
        i < box_bytes(*old(b)).len(),
    ensures
        box_bytes(*final(b)) == box_bytes(*old(b)).update(i as int, v),
        box_addr(*final(b)) == box_addr(*old(b)),
{
    b[i] = v;
}

/// Errors that occur while allocating memory near an address.
#[derive(Debug)]
pub enum ProximityError {
    /// No memory within reach of the requested address could be had.
    OutOfMemory,
    /// Mapping a region failed.
    MmapError(mmap::MapError),
    /// Querying a memory region failed.
    RegionError(region::Error),
}

/// Lowest address within `max` of `origin`, saturating at zero.
pub open spec fn reach_lo(origin: int, max: int) -> int {
    if origin >= max {
        origin - max
    } else {
        0
    }
}

/// Bound past the addresses within `max` of `origin`, saturating at the top
/// of the address space.
pub open spec fn reach_hi(origin: int, max: int) -> int {
    if origin + max <= usize::MAX {
        origin + max
    } else {
        usize::MAX as int
    }
}

/// `addr` lies in the half-open range `[reach_lo, reach_hi)` around `origin`.
pub open spec fn in_reach(origin: int, max: int, addr: int) -> bool {
    reach_lo(origin, max) <= addr < reach_hi(origin, max)
}

/// The span of a pool and the number of live allocations in it.
#[derive(Clone, Copy, Debug, PartialEq, Eq, Structural)]
pub struct PoolSpan {
    /// Address of the pool's first byte.
    pub base: usize,
    /// Number of bytes in the pool.
    pub len: usize,
    /// Number of allocations from the pool that have not been released.
    pub live: usize,
}

/// Every byte of the pool lies in `[lo, hi)`.
pub open spec fn span_within(s: PoolSpan, lo: int, hi: int) -> bool {
    &&& s.len > 0
    &&& lo <= s.base
    &&& s.base + s.len - 1 < hi
}

/// `addr` is one of the pool's bytes.
pub open spec fn span_contains(s: PoolSpan, addr: int) -> bool {
    s.base <= addr < s.base + s.len
}

/// The two pools share no byte.
pub open spec fn spans_disjoint(a: PoolSpan, b: PoolSpan) -> bool {
    a.base + a.len <= b.base || b.base + b.len <= a.base
}

/// No two pools of `spans` share a byte, and every pool has at least one
/// byte and one live allocation.
pub open spec fn spans_wf(spans: Seq<PoolSpan>) -> bool {
    &&& forall|i: int| 0 <= i < spans.len() ==> #[trigger] spans[i].live >= 1 && spans[i].len >= 1
    &&& forall|i: int, j: int|
        0 <= i < spans.len() && 0 <= j < spans.len() && i != j ==> spans_disjoint(
            #[trigger] spans[i],
            #[trigger] spans[j],
        )
}

/// The pools after an allocation of pool `i` is released: its count goes
/// down by one, and a pool left with none is dropped.
pub open spec fn after_release(spans: Seq<PoolSpan>, i: int) -> Seq<PoolSpan> {
    if spans[i].live <= 1 {
        spans.remove(i)
    } else {
        spans.update(i, PoolSpan { live: (spans[i].live - 1) as usize, ..spans[i] })
    }
}

/// The pools after pool `i` hands out one more allocation.
pub open spec fn after_allocate(spans: Seq<PoolSpan>, i: int) -> Seq<PoolSpan> {
    spans.update(i, PoolSpan { live: (spans[i].live + 1) as usize, ..spans[i] })
}

/// Releasing the sole allocation of a pool removes the pool: afterwards no
/// pool starts at its base, and none holds the released address.
pub proof fn lemma_release_sole_frees_pool(spans: Seq<PoolSpan>, i: int, addr: int)
    requires
        spans_wf(spans),
        0 <= i < spans.len(),
        span_contains(spans[i], addr),
        spans[i].live == 1,
    ensures
        after_release(spans, i).len() == spans.len() - 1,
        forall|j: int|
            0 <= j < after_release(spans, i).len() ==> (#[trigger] after_release(spans, i)[j]).base
                != spans[i].base,
        forall|j: int|
            0 <= j < after_release(spans, i).len() ==> !span_contains(
                #[trigger] after_release(spans, i)[j],
                addr,
            ),
{
    let rest = after_release(spans, i);
    assert forall|j: int| 0 <= j < rest.len() implies (#[trigger] rest[j]).base != spans[i].base
        && !span_contains(rest[j], addr) by {
        let k = if j < i {
            j
        } else {
            j + 1
        };
        assert(rest[j] == spans[k]);
        assert(spans[k].live >= 1 && spans[k].len >= 1);
        assert(spans_disjoint(spans[i], spans[k]));
    }
}

/// An allocation served by an existing pool adds no pool: the pools keep
/// their number, places and sizes, only the count of the serving pool goes
/// up by one, and no two pools come to overlap.
pub proof fn lemma_allocation_reuses_pool(spans: Seq<PoolSpan>, i: int)
    requires
        spans_wf(spans),
        0 <= i < spans.len(),
        spans[i].live < usize::MAX,
    ensures
        after_allocate(spans, i).len() == spans.len(),
        forall|j: int|
            0 <= j < spans.len() ==> (#[trigger] after_allocate(spans, i)[j]).base == spans[j].base
                && after_allocate(spans, i)[j].len == spans[j].len,
        after_allocate(spans, i)[i].live == spans[i].live + 1,
        spans_wf(after_allocate(spans, i)),
{
    let next = after_allocate(spans, i);
    assert forall|a: int, b: int|
        0 <= a < next.len() && 0 <= b < next.len() && a != b implies spans_disjoint(
        #[trigger] next[a],
        #[trigger] next[b],
    ) by {
        assert(spans_disjoint(spans[a], spans[b]));
    }
    assert forall|k: int| 0 <= k < next.len() implies #[trigger] next[k].live >= 1 && next[k].len >= 1 by {
        assert(spans[k].live >= 1 && spans[k].len >= 1);
    }
}

/// A handle to allocated executable memory.
pub struct ExecutableMemory {
    /// The allocation within its pool.
    data: SliceBox<u8>,
}

impl ExecutableMemory {
    /// Address of the first byte.
    pub closed spec fn addr(&self) -> int {
        box_addr(self.data)
    }

    /// The bytes the memory holds.
    pub closed spec fn bytes(&self) -> Seq<u8> {
        box_bytes(self.data)
    }

    /// Address of the first byte.
    pub fn address(&self) -> (r: usize)
        ensures
            r == self.addr(),
    {
        box_address(&self.data)
    }

    /// Number of bytes.
    pub fn len(&self) -> (r: usize)
        ensures
            r == self.bytes().len(),
    {
        box_length(&self.data)
    }

    /// A copy of the bytes.
    pub fn to_vec(&self) -> (r: Vec<u8>)
        ensures
            r@ == self.bytes(),
    {
        box_copy(&self.data)
    }

    /// Copies `bytes` to the start of the memory.
    pub fn write(&mut self, bytes: &[u8])
        requires
            bytes@.len() <= old(self).bytes().len(),
        ensures
            final(self).addr() == old(self).addr(),
            final(self).bytes().len() == old(self).bytes().len(),
            final(self).bytes().subrange(0, bytes@.len() as int) == bytes@,
            final(self).bytes().subrange(bytes@.len() as int, old(self).bytes().len() as int)
                == old(self).bytes().subrange(bytes@.len() as int, old(self).bytes().len() as int),
    {
        let mut i: usize = 0;
        while i < bytes.len()
            invariant
                i <= bytes@.len(),
                bytes@.len() <= old(self).bytes().len(),
                self.addr() == old(self).addr(),
                self.bytes().len() == old(self).bytes().len(),
                forall|k: int| 0 <= k < i ==> #[trigger] self.bytes()[k] == bytes@[k],
                forall|k: int|
                    i <= k < self.bytes().len() ==> #[trigger] self.bytes()[k] == old(
                        self,
                    ).bytes()[k],
            decreases bytes@.len() - i,
        {
            box_store(&mut self.data, i, bytes[i]);
            i = i + 1;
        }
        assert(self.bytes().subrange(0, bytes@.len() as int) =~= bytes@);
        assert(self.bytes().subrange(bytes@.len() as int, old(self).bytes().len() as int)
            =~= old(self).bytes().subrange(bytes@.len() as int, old(self).bytes().len() as int));
    }
}

/// One pool of executable memory and the count of its live allocations.
struct Pool {
    memory: SlicePool<u8>,
    base: usize,
    len: usize,
    live: usize,
}

impl Pool {
    spec fn span(&self) -> PoolSpan {
        PoolSpan { base: self.base, len: self.len, live: self.live }
    }

    spec fn wf(&self) -> bool {
        &&& self.base == pool_base(self.memory)
        &&& self.len == pool_len(self.memory)
        &&& self.base + self.len <= usize::MAX
    }
}

/// Owns the pools of executable memory and hands out allocations near a
/// requested address.
pub struct ProximityAllocator {
    /// Largest distance between a requested origin and its allocation.
    max_distance: usize,
    /// Memory pools used for allocations.
    pools: Vec<Pool>,
}

impl ProximityAllocator {
    /// Largest distance between a requested origin and its allocation.
    pub closed spec fn max_distance(&self) -> int {
        self.max_distance as int
    }

    /// The pools, in the order they were created.
    pub closed spec fn spans(&self) -> Seq<PoolSpan> {
        Seq::new(self.pools@.len(), |i: int| self.pools@[i].span())
    }

    /// Every pool matches its memory, no two pools overlap, and every pool
    /// holds a live allocation.
    pub closed spec fn wf(&self) -> bool {
        &&& forall|i: int| 0 <= i < self.pools@.len() ==> #[trigger] self.pools@[i].wf()
        &&& spans_wf(self.spans())
    }

    /// A well-formed allocator's pools share no byte, and each has at least
    /// one byte and one live allocation.
    pub proof fn lemma_wf_spans(&self)
        requires
            self.wf(),
        ensures
            spans_wf(self.spans()),
    {
    }

    /// `addr` lies in one of the pools.
    pub open spec fn owns(&self, addr: int) -> bool {
        exists|i: int| 0 <= i < self.spans().len() && span_contains(#[trigger] self.spans()[i], addr)
    }

    /// Creates an allocator without pools.
    pub fn new(max_distance: usize) -> (r: Self)
        ensures
            r.wf(),
            r.max_distance() == max_distance,
            r.spans() == Seq::<PoolSpan>::empty(),
    {
        let r = ProximityAllocator { max_distance, pools: Vec::new() };
        assert(r.spans() =~= Seq::<PoolSpan>::empty());
        r
    }

    /// Largest distance between a requested origin and its allocation.
    pub fn get_max_distance(&self) -> (r: usize)
        ensures
            r == self.max_distance(),
    {
        self.max_distance
    }

    /// Number of pools.
    pub fn pool_count(&self) -> (r: usize)
        ensures
            r == self.spans().len(),
    {
        self.pools.len()
    }

    /// The span and live count of pool `i`.
    pub fn pool_span(&self, i: usize) -> (r: PoolSpan)
        requires
            i < self.spans().len(),
        ensures
            r == self.spans()[i as int],
    {
        PoolSpan { base: self.pools[i].base, len: self.pools[i].len, live: self.pools[i].live }
    }
    /// Allocates `size` bytes from the first existing pool that lies wholly
    /// within reach of `origin` and has room for them. No pool is created:
    /// when none of them can serve the request the result is `OutOfMemory`.
    ///
    /// A pool whose count of live allocations is at its maximum is passed
    /// over, and so is an empty allocation placed at the very end of a pool,
    /// since it could not be traced back to the pool when released.
    pub fn allocate(&mut self, origin: usize, size: usize) -> (r: Result<
        ExecutableMemory,
        ProximityError,
    >)
        requires
            old(self).wf(),
        ensures
            final(self).wf(),
            final(self).max_distance() == old(self).max_distance(),
            r is Ok ==> in_reach(origin as int, old(self).max_distance(), r->Ok_0.addr()),
            r is Ok ==> r->Ok_0.bytes().len() == size,
            r is Ok ==> exists|i: int|
                0 <= i < old(self).spans().len() && span_within(
                    #[trigger] old(self).spans()[i],
                    reach_lo(origin as int, old(self).max_distance()),
                    reach_hi(origin as int, old(self).max_distance()),
                ) && span_contains(old(self).spans()[i], r->Ok_0.addr()) && r->Ok_0.addr() + size
                    <= old(self).spans()[i].base + old(self).spans()[i].len && final(self).spans()
                    == after_allocate(old(self).spans(), i),
            r is Err ==> r->Err_0 is OutOfMemory,
            r is Err ==> final(self).spans() == old(self).spans(),
    {
        let lo = origin.saturating_sub(self.max_distance);
        let hi = origin.saturating_add(self.max_distance);
        let mut i: usize = 0;
        while i < self.pools.len()
            invariant
                self.pools@ == old(self).pools@,
                self.max_distance == old(self).max_distance,
                old(self).wf(),
                lo == reach_lo(origin as int, self.max_distance as int),
                hi == reach_hi(origin as int, self.max_distance as int),
                i <= self.pools@.len(),
            decreases self.pools@.len() - i,
        {
            let base = self.pools[i].base;
            let len = self.pools[i].len;
            let live = self.pools[i].live;
            assert(self.pools@[i as int].wf());
            if len > 0 && lo <= base && base + len - 1 < hi && live < usize::MAX {
                match pool_alloc(&self.pools[i].memory, size) {
                    Some(data) => {
                        let addr = box_address(&data);
                        if addr < base + len {
                            self.pools[i].live = live + 1;
                            proof {
                                let old_spans = old(self).spans();
                                assert(old_spans[i as int] == old(self).pools@[i as int].span());
                                assert(self.spans() =~= after_allocate(old_spans, i as int));
                                assert(forall|k: int|
                                    0 <= k < self.pools@.len() ==> #[trigger] self.pools@[k].wf()
                                        == old(self).pools@[k].wf() || k == i);
                            }
                            return Ok(ExecutableMemory { data });
                        }
                    },
                    None => {},
                }
            }
            i = i + 1;
        }
        Err(ProximityError::OutOfMemory)
    }

    /// Takes `memory` as a new pool and allocates `size` bytes from it.
    ///
    /// The pool is kept only if it has at least one byte, shares no byte
    /// with an existing pool, and the allocation lies within reach of
    /// `origin`; otherwise it is dropped and the result is `OutOfMemory`.
    pub fn allocate_in(&mut self, origin: usize, size: usize, memory: SlicePool<u8>) -> (r: Result<
        ExecutableMemory,
        ProximityError,
    >)
        requires
            old(self).wf(),
        ensures
            final(self).wf(),
            final(self).max_distance() == old(self).max_distance(),
            r is Ok ==> in_reach(origin as int, old(self).max_distance(), r->Ok_0.addr()),
            r is Ok ==> r->Ok_0.bytes().len() == size,
            r is Ok ==> final(self).spans() == old(self).spans().push(
                PoolSpan { base: pool_base(memory) as usize, len: pool_len(memory) as usize, live: 1 },
            ),
            r is Ok ==> span_contains(final(self).spans().last(), r->Ok_0.addr()),
            r is Ok ==> r->Ok_0.addr() + size <= pool_base(memory) + pool_len(memory),
            r is Err ==> r->Err_0 is OutOfMemory,
            r is Err ==> final(self).spans() == old(self).spans(),
            pool_len(memory) == 0 ==> r is Err,
            (exists|j: int|
                0 <= j < old(self).spans().len() && !spans_disjoint(
                    #[trigger] old(self).spans()[j],
                    PoolSpan { base: pool_base(memory) as usize, len: pool_len(memory) as usize, live: 1 },
                )) ==> r is Err,
    {
        let base = pool_addr(&memory);
        let len = pool_size(&memory);
        let fresh = PoolSpan { base, len, live: 1 };
        if len == 0 {
            return Err(ProximityError::OutOfMemory);
        }
        let mut j: usize = 0;
        while j < self.pools.len()
            invariant
                self.pools@ == old(self).pools@,
                self.max_distance == old(self).max_distance,
                old(self).wf(),
                base as int + len as int <= usize::MAX,
                fresh == (PoolSpan { base, len, live: 1 }),
                j <= self.pools@.len(),
                forall|k: int| 0 <= k < j ==> spans_disjoint(#[trigger] self.spans()[k], fresh),
            decreases self.pools@.len() - j,
        {
            let other = PoolSpan { base: self.pools[j].base, len: self.pools[j].len, live: self.pools[j].live };
            assert(other == self.spans()[j as int]);
            assert(self.pools@[j as int].wf());
            if !(other.base + other.len <= base || base + len <= other.base) {
                return Err(ProximityError::OutOfMemory);
            }
            j = j + 1;
        }
        let lo = origin.saturating_sub(self.max_distance);
        let hi = origin.saturating_add(self.max_distance);
        match pool_alloc(&memory, size) {
            Some(data) => {
                let addr = box_address(&data);
                if lo <= addr && addr < hi && addr < base + len {
                    let ghost old_spans = self.spans();
                    self.pools.push(Pool { memory, base, len, live: 1 });
                    proof {
                        assert(self.spans() =~= old_spans.push(fresh));
                        assert forall|k: int| 0 <= k < self.pools@.len() implies #[trigger] self.pools@[k].wf() by {
                            if k < old(self).pools@.len() {
                                assert(self.pools@[k] == old(self).pools@[k]);
                            }
                        }
                        assert forall|a: int, b: int|
                            0 <= a < self.spans().len() && 0 <= b < self.spans().len() && a != b
                            implies spans_disjoint(#[trigger] self.spans()[a], #[trigger] self.spans()[b]) by {
                            if a < old_spans.len() && b < old_spans.len() {
                                assert(spans_disjoint(old_spans[a], old_spans[b]));
                            } else if a < old_spans.len() {
                                assert(spans_disjoint(old_spans[a], fresh));
                            } else {
                                assert(spans_disjoint(old_spans[b], fresh));
                            }
                        }
                    }
                    Ok(ExecutableMemory { data })
                } else {
                    Err(ProximityError::OutOfMemory)
                }
            },
            None => Err(ProximityError::OutOfMemory),
        }
    }

    /// Releases an allocation: the count of its pool goes down by one, and a
    /// pool left without allocations is removed and its memory unmapped once
    /// the allocation itself is gone.
    pub fn release(&mut self, value: ExecutableMemory)
        requires
            old(self).wf(),
            old(self).owns(value.addr()),
        ensures
            final(self).wf(),
            final(self).max_distance() == old(self).max_distance(),
            exists|i: int|
                0 <= i < old(self).spans().len() && span_contains(
                    #[trigger] old(self).spans()[i],
                    value.addr(),
                ) && final(self).spans() == after_release(old(self).spans(), i),
    {
        let addr = value.address();
        let mut i: usize = 0;
        let mut found = false;
        while !found && i < self.pools.len()
            invariant
                self.pools@ == old(self).pools@,
                self.max_distance == old(self).max_distance,
                old(self).wf(),
                addr == value.addr(),
                i <= self.pools@.len(),
                found ==> i < self.pools@.len() && span_contains(self.spans()[i as int], addr as int),
                !found ==> forall|k: int| 0 <= k < i ==> !span_contains(#[trigger] self.spans()[k], addr as int),
            decreases self.pools@.len() - i + (if found { 0int } else { 1int }),
        {
            assert(self.pools@[i as int].wf());
            if self.pools[i].base <= addr && addr < self.pools[i].base + self.pools[i].len {
                found = true;
            } else {
                i = i + 1;
            }
        }
        proof {
            let w = choose|w: int| 0 <= w < self.spans().len() && span_contains(#[trigger] self.spans()[w], value.addr());
            if !found {
                assert(!span_contains(self.spans()[w], addr as int));
            }
        }
        let ghost old_spans = self.spans();
        let live = self.pools[i].live;
        assert(old_spans[i as int].live >= 1 && old_spans[i as int].len >= 1);
        if live <= 1 {
            let _pool = self.pools.remove(i);
            proof {
                assert(self.spans() =~= old_spans.remove(i as int));
                assert forall|k: int| 0 <= k < self.pools@.len() implies #[trigger] self.pools@[k].wf() by {
                    if k < i {
                        assert(self.pools@[k] == old(self).pools@[k]);
                    } else {
                        assert(self.pools@[k] == old(self).pools@[k + 1]);
                    }
                }
                assert forall|a: int, b: int|
                    0 <= a < self.spans().len() && 0 <= b < self.spans().len() && a != b
                    implies spans_disjoint(#[trigger] self.spans()[a], #[trigger] self.spans()[b]) by {
                    let a2 = if a < i { a } else { a + 1 };
                    let b2 = if b < i { b } else { b + 1 };
                    assert(spans_disjoint(old_spans[a2], old_spans[b2]));
                }
                assert forall|k: int| 0 <= k < self.spans().len() implies #[trigger] self.spans()[k].live >= 1 && self.spans()[k].len >= 1 by {
                    let k2 = if k < i { k } else { k + 1 };
                    assert(old_spans[k2].live >= 1);
                }
                assert(spans_wf(self.spans()));
                assert(self.wf());
            }
        } else {
            self.pools[i].live = live - 1;
            proof {
                assert(self.spans() =~= after_release(old_spans, i as int));
                assert forall|k: int| 0 <= k < self.pools@.len() implies #[trigger] self.pools@[k].wf() by {
                    assert(old(self).pools@[k].wf());
                }
                assert forall|a: int, b: int|
                    0 <= a < self.spans().len() && 0 <= b < self.spans().len() && a != b
                    implies spans_disjoint(#[trigger] self.spans()[a], #[trigger] self.spans()[b]) by {
                    assert(spans_disjoint(old_spans[a], old_spans[b]));
                }
                assert forall|k: int| 0 <= k < self.spans().len() implies #[trigger] self.spans()[k].live >= 1 && self.spans()[k].len >= 1 by {
                    assert(old_spans[k].live >= 1);
                }
                assert(spans_wf(self.spans()));
                assert(self.wf());
            }
        }
    }
    /// Whether `addr` lies in one of the pools.
    pub fn holds(&self, addr: usize) -> (r: bool)
        requires
            self.wf(),
        ensures
            r == self.owns(addr as int),
    {
        let mut i: usize = 0;
        while i < self.pools.len()
            invariant
                self.wf(),
                i <= self.pools@.len(),
                forall|k: int| 0 <= k < i ==> !span_contains(#[trigger] self.spans()[k], addr as int),
            decreases self.pools@.len() - i,
        {
            assert(self.pools@[i as int].wf());
            if self.pools[i].base <= addr && addr < self.pools[i].base + self.pools[i].len {
                assert(span_contains(self.spans()[i as int], addr as int));
                return true;
            }
            i = i + 1;
        }
        false
    }

    /// The pools, in the order they were created.
    pub fn spans_vec(&self) -> (r: Vec<PoolSpan>)
        ensures
            r@ == self.spans(),
    {
        let mut r: Vec<PoolSpan> = Vec::new();
        let mut i: usize = 0;
        while i < self.pools.len()
            invariant
                i <= self.pools@.len(),
                r@ == self.spans().subrange(0, i as int),
            decreases self.pools@.len() - i,
        {
            r.push(PoolSpan { base: self.pools[i].base, len: self.pools[i].len, live: self.pools[i].live });
            i = i + 1;
            assert(r@ =~= self.spans().subrange(0, i as int));
        }
        assert(r@ =~= self.spans());
        r
    }
}

} // verus!
