use hookcraft::allocator::proximity::{PoolSpan, ProximityAllocator, ProximityError};
use hookcraft::allocator::search::{after, before, FreeRegionIter, PoolSearch, RegionQuery, SearchDirection};
use hookcraft::allocator::{allocate_executable, ThreadAllocator, DETOUR_RANGE};
use slice_pool::sync::SlicePool;

fn pool(len: usize) -> (SlicePool<u8>, usize) {
    let pool = SlicePool::new(vec![0u8; len]);
    let base = pool.as_ptr() as usize;
    (pool, base)
}

#[test]
fn new_allocator_has_no_pools() {
    let allocator = ThreadAllocator::new(DETOUR_RANGE);
    assert_eq!(allocator.get_max_distance(), 0x8000_0000);
    assert!(allocator.pools().is_empty());
    assert!(matches!(allocator.allocate(0x1000_0000, 16), Err(ProximityError::OutOfMemory)));
}

#[test]
fn allocation_lies_within_reach() {
    let allocator = ThreadAllocator::new(0x1000);
    let (memory, base) = pool(4096);
    let origin = base + 100;
    let mem = allocator.allocate_in(origin, 32, memory).unwrap();
    let addr = mem.address();
    assert!(addr + 0x1000 >= origin && addr < origin + 0x1000);
    assert_eq!(mem.len(), 32);
    assert_eq!(addr, base);
}

#[test]
fn pool_out_of_reach_is_refused() {
    let allocator = ThreadAllocator::new(0x10);
    let (memory, base) = pool(4096);
    let origin = base + 0x10000;
    assert!(matches!(allocator.allocate_in(origin, 32, memory), Err(ProximityError::OutOfMemory)));
    assert!(allocator.pools().is_empty());
}

#[test]
fn successive_allocations_share_a_pool() {
    let allocator = ThreadAllocator::new(DETOUR_RANGE);
    let (memory, base) = pool(4096);
    let first = allocator.allocate_in(base, 64, memory).unwrap();
    let second = allocate_executable(&allocator, base + 8, 64).unwrap();
    let pools = allocator.pools();
    assert_eq!(pools.len(), 1);
    assert_eq!(pools[0], PoolSpan { base, len: 4096, live: 2 });
    for a in [first.address(), second.address()] {
        assert!(a >= base && a + 64 <= base + 4096);
    }
    assert_ne!(first.address(), second.address());
    assert!(allocator.release(first));
    assert!(allocator.release(second));
}

#[test]
fn releasing_sole_allocation_frees_pool() {
    let allocator = ThreadAllocator::new(DETOUR_RANGE);
    let (memory, base) = pool(4096);
    let mem = allocator.allocate_in(base, 16, memory).unwrap();
    assert_eq!(allocator.pools().len(), 1);
    assert!(allocator.release(mem));
    assert!(allocator.pools().is_empty());
    assert!(matches!(allocator.allocate(base, 16), Err(ProximityError::OutOfMemory)));
}

#[test]
fn release_keeps_pool_with_live_allocations() {
    let allocator = ThreadAllocator::new(DETOUR_RANGE);
    let (memory, base) = pool(4096);
    let a = allocator.allocate_in(base, 16, memory).unwrap();
    let b = allocator.allocate(base, 16).unwrap();
    assert!(allocator.release(a));
    assert_eq!(allocator.pools(), vec![PoolSpan { base, len: 4096, live: 1 }]);
    assert!(allocator.release(b));
    assert!(allocator.pools().is_empty());
}

#[test]
fn release_of_foreign_memory_is_reported() {
    let one = ThreadAllocator::new(DETOUR_RANGE);
    let other = ThreadAllocator::new(DETOUR_RANGE);
    let (memory, base) = pool(64);
    let mem = one.allocate_in(base, 8, memory).unwrap();
    assert!(!other.release(mem));
    assert_eq!(one.pools().len(), 1);
}

#[test]
fn full_pool_reports_out_of_memory() {
    let allocator = ThreadAllocator::new(DETOUR_RANGE);
    let (memory, base) = pool(32);
    let _a = allocator.allocate_in(base, 32, memory).unwrap();
    assert!(matches!(allocator.allocate(base, 1), Err(ProximityError::OutOfMemory)));
}

#[test]
fn empty_pool_is_refused() {
    let allocator = ThreadAllocator::new(DETOUR_RANGE);
    let memory = SlicePool::new(Vec::<u8>::new());
    assert!(matches!(allocator.allocate_in(0x1000, 0, memory), Err(ProximityError::OutOfMemory)));
}

#[test]
fn distinct_pools_are_both_kept() {
    let mut allocator = ProximityAllocator::new(DETOUR_RANGE);
    let (memory, base) = pool(64);
    let _a = allocator.allocate_in(base, 8, memory).unwrap();
    let other = SlicePool::new(vec![0u8; 16]);
    let other_base = other.as_ptr() as usize;
    let _b = allocator.allocate_in(other_base, 8, other).unwrap();
    assert_eq!(allocator.pool_count(), 2);
    assert_eq!(allocator.pool_span(1), PoolSpan { base: other_base, len: 16, live: 1 });
}

#[test]
fn memory_write_and_read_back() {
    let allocator = ThreadAllocator::new(DETOUR_RANGE);
    let (memory, base) = pool(16);
    let mut mem = allocator.allocate_in(base, 8, memory).unwrap();
    mem.write(&[1, 2, 3]);
    assert_eq!(&mem.to_vec()[..3], &[1, 2, 3]);
    assert_eq!(mem.to_vec().len(), 8);
}

#[test]
fn search_after_skips_mapped_regions() {
    let mut search = after(0x1000, Some(0x1000..0x9000));
    assert_eq!(search.pending(), Some(0x1000));
    assert!(search.advance(RegionQuery::Mapped { start: 0x0, end: 0x3000 }, 0x1000).is_none());
    assert_eq!(search.pending(), Some(0x3000));
    assert!(matches!(search.advance(RegionQuery::Unmapped, 0x1000), Some(Ok(0x3000))));
    assert_eq!(search.pending(), Some(0x4000));
    assert!(matches!(
        search.advance(RegionQuery::Failed(region::Error::UnmappedRegion), 0x1000),
        Some(Err(_))
    ));
    assert_eq!(search.pending(), Some(0x5000));
    assert!(search.advance(RegionQuery::Mapped { start: 0x5000, end: 0x9000 }, 0x1000).is_none());
    assert_eq!(search.pending(), None);
}

#[test]
fn search_before_moves_below_mapped_regions() {
    let mut search = before(0x8000, None);
    assert_eq!(search.pending(), Some(0x8000));
    assert!(search.advance(RegionQuery::Mapped { start: 0x6000, end: 0x9000 }, 0x1000).is_none());
    assert_eq!(search.pending(), Some(0x5000));
    assert!(matches!(search.advance(RegionQuery::Unmapped, 0x1000), Some(Ok(0x5000))));
    assert_eq!(search.pending(), Some(0x4000));
    assert!(search.advance(RegionQuery::Mapped { start: 0x0, end: 0x5000 }, 0x1000).is_none());
    assert_eq!(search.pending(), None);
}

#[test]
fn search_stops_at_zero_and_at_range_end() {
    let search = FreeRegionIter::new(0, None, SearchDirection::After);
    assert_eq!(search.pending(), None);
    let mut search = after(usize::MAX - 10, None);
    assert_eq!(search.pending(), Some(usize::MAX - 10));
    assert!(matches!(search.advance(RegionQuery::Unmapped, 0x1000), Some(Ok(_))));
    assert_eq!(search.pending(), None);
    let mut bounded = after(0x1000, Some(0x1000..0x1800));
    assert!(matches!(bounded.advance(RegionQuery::Unmapped, 0x1000), Some(Ok(0x1000))));
    assert_eq!(bounded.pending(), None);
}

#[test]
fn pool_search_tries_after_then_before() {
    let mut search = PoolSearch::new(0x5000, 0x1000..0x9000);
    assert_eq!(search.pending(), Some(0x5000));
    assert!(search.advance(RegionQuery::Mapped { start: 0x5000, end: 0x9000 }, 0x1000).is_none());
    assert_eq!(search.pending(), Some(0x5000));
    assert!(search.advance(RegionQuery::Mapped { start: 0x4000, end: 0x9000 }, 0x1000).is_none());
    assert_eq!(search.pending(), Some(0x3000));
    assert!(matches!(search.advance(RegionQuery::Unmapped, 0x1000), Some(Ok(0x3000))));
}

#[test]
fn allocator_search_spans_reach() {
    let allocator = ThreadAllocator::new(0x1000);
    let search = allocator.search(0x800);
    assert_eq!(search.pending(), Some(0x800));
    let far = allocator.search(usize::MAX - 0x10);
    assert_eq!(far.pending(), Some(usize::MAX - 0x10));
}

#[test]
fn pool_partly_out_of_reach_is_not_used() {
    let allocator = ThreadAllocator::new(0x100);
    let (memory, base) = pool(4096);
    let origin = base + 0x80;
    let first = allocator.allocate_in(origin, 16, memory).unwrap();
    assert_eq!(first.address(), base);
    assert!(matches!(allocator.allocate(origin, 16), Err(ProximityError::OutOfMemory)));
    assert_eq!(allocator.pools().len(), 1);
}

#[test]
fn reach_saturates_at_address_space_bounds() {
    let allocator = ThreadAllocator::new(DETOUR_RANGE);
    let (memory, base) = pool(64);
    // an origin below the reach distance saturates the lower bound at zero
    let mem = allocator.allocate_in(0x10, 8, memory);
    match mem {
        Ok(m) => assert!(m.address() < 0x10 + DETOUR_RANGE),
        Err(e) => assert!(matches!(e, ProximityError::OutOfMemory) && base >= 0x10 + DETOUR_RANGE),
    }
}
