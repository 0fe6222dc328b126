//! Searches the address space, page by page, for unmapped memory near an
//! address.
//!
//! The search is a state machine: [`FreeRegionIter::pending`] names the
//! address whose region must be queried next, and
//! [`FreeRegionIter::advance`] takes the answer and yields a free address or
//! a query error when there is one to report.
use vstd::prelude::*;

use std::ops::Range;

use crate::allocator::proximity::ProximityError;

verus! {

/// Direction of a region search.
#[derive(Clone, Copy, Debug, PartialEq, Eq, Structural)]
pub enum SearchDirection {
    /// Towards lower addresses.
    Before,
    /// Towards higher addresses.
    After,
}

/// What a query of the region holding an address found.
#[derive(Debug)]
pub enum RegionQuery {
    /// The address lies in the mapped region `[start, end)`.
    Mapped { start: usize, end: usize },
    /// The address is not mapped.
    Unmapped,
    /// The query failed.
    Failed(region::Error),
}

/// A search for free regions, from an origin outwards in one direction.
pub struct FreeRegionIter {
    /// Range the search stays in.
    range: Range<usize>,
    /// Direction of the search.
    search: SearchDirection,
    /// Current address of the search.
    current: usize,
}

/// Where a search goes from `current` past a step of `by` bytes.
pub open spec fn step_from(current: int, by: int, search: SearchDirection) -> int {
    match search {
        SearchDirection::Before => if current >= by {
            current - by
        } else {
            0
        },
        SearchDirection::After => if current + by <= usize::MAX {
            current + by
        } else {
            usize::MAX as int
        },
    }
}

/// What one step of a search does: `next` is `prev` after the answer
/// `answer` to its pending query, and `r` is what the step yields.
///
/// A mapped region moves the search past it: to its end when searching
/// after, to the page before its start when searching before; nothing is
/// yielded. An unmapped address is yielded as a candidate, and a failed
/// query as its error; either way the search then moves on by one page.
pub open spec fn advanced(
    prev: FreeRegionIter,
    next: FreeRegionIter,
    answer: RegionQuery,
    page_size: usize,
    r: Option<Result<usize, region::Error>>,
) -> bool {
    &&& next.lower() == prev.lower()
    &&& next.upper() == prev.upper()
    &&& next.direction() == prev.direction()
    &&& match answer {
        RegionQuery::Mapped { start, end } => {
            &&& r is None
            &&& next.current() == match prev.direction() {
                SearchDirection::Before => step_from(
                    start as int,
                    page_size as int,
                    SearchDirection::Before,
                ),
                SearchDirection::After => end as int,
            }
        },
        RegionQuery::Unmapped => {
            &&& r == Some(Ok::<usize, region::Error>(prev.current() as usize))
            &&& next.current() == step_from(prev.current(), page_size as int, prev.direction())
        },
        RegionQuery::Failed(e) => {
            &&& r == Some(Err::<usize, region::Error>(e))
            &&& next.current() == step_from(prev.current(), page_size as int, prev.direction())
        },
    }
}

impl FreeRegionIter {
    /// Current address of the search.
    pub closed spec fn current(&self) -> int {
        self.current as int
    }

    /// First address of the range the search stays in.
    pub closed spec fn lower(&self) -> int {
        self.range.start as int
    }

    /// Bound past the last address of the range the search stays in.
    pub closed spec fn upper(&self) -> int {
        self.range.end as int
    }

    /// Direction of the search.
    pub closed spec fn direction(&self) -> SearchDirection {
        self.search
    }

    /// The current address and the bounds of the range are addresses.
    pub proof fn lemma_bounds(&self)
        ensures
            0 <= self.current() <= usize::MAX,
            0 <= self.lower() <= usize::MAX,
            0 <= self.upper() <= usize::MAX,
    {
    }

    /// The search has not left its range, nor reached address zero.
    pub open spec fn active(&self) -> bool {
        self.current() > 0 && self.lower() <= self.current() < self.upper()
    }

    /// Creates a search from `origin` within `range`, or within the whole
    /// address space when no range is given.
    pub fn new(origin: usize, range: Option<Range<usize>>, search: SearchDirection) -> (r: Self)
        ensures
            r.current() == origin,
            r.direction() == search,
            range is Some ==> r.lower() == range->Some_0.start && r.upper() == range->Some_0.end,
            range is None ==> r.lower() == 0 && r.upper() == usize::MAX,
    {
        let range = match range {
            Some(r) => r,
            None => 0..usize::MAX,
        };
        FreeRegionIter { range, current: origin, search }
    }

    /// The address whose region must be queried next, or `None` once the
    /// search is over.
    pub fn pending(&self) -> (r: Option<usize>)
        ensures
            self.active() ==> r == Some(self.current() as usize),
            !self.active() ==> r is None,
    {
        if self.current > 0 && self.range.start <= self.current && self.current < self.range.end {
            Some(self.current)
        } else {
            None
        }
    }

    /// Takes the answer to the query of the pending address; see
    /// [`advanced`] for what a step does.
    pub fn advance(&mut self, answer: RegionQuery, page_size: usize) -> (r: Option<
        Result<usize, region::Error>,
    >)
        requires
            old(self).active(),
            page_size > 0,
            answer matches RegionQuery::Mapped { start, end } ==> start <= old(self).current() < end,
        ensures
            advanced(*old(self), *final(self), answer, page_size, r),
    {
        match answer {
            RegionQuery::Mapped { start, end } => {
                self.current = match self.search {
                    SearchDirection::Before => start.saturating_sub(page_size),
                    SearchDirection::After => end,
                };
                None
            },
            RegionQuery::Unmapped => {
                let found = self.current;
                self.current = self.stepped(page_size);
                Some(Ok(found))
            },
            RegionQuery::Failed(e) => {
                self.current = self.stepped(page_size);
                Some(Err(e))
            },
        }
    }

    /// The current address moved by one page in the search's direction.
    fn stepped(&self, page_size: usize) -> (r: usize)
        ensures
            r == step_from(self.current(), page_size as int, self.direction()),
    {
        match self.search {
            SearchDirection::Before => self.current.saturating_sub(page_size),
            SearchDirection::After => self.current.saturating_add(page_size),
        }
    }
}

/// Returns a search for free regions after `origin`.
pub fn after(origin: usize, range: Option<Range<usize>>) -> (r: FreeRegionIter)
    ensures
        r.current() == origin,
        r.direction() == SearchDirection::After,
        range is Some ==> r.lower() == range->Some_0.start && r.upper() == range->Some_0.end,
        range is None ==> r.lower() == 0 && r.upper() == usize::MAX,
{
    FreeRegionIter::new(origin, range, SearchDirection::After)
}

/// Returns a search for free regions before `origin`.
pub fn before(origin: usize, range: Option<Range<usize>>) -> (r: FreeRegionIter)
    ensures
        r.current() == origin,
        r.direction() == SearchDirection::Before,
        range is Some ==> r.lower() == range->Some_0.start && r.upper() == range->Some_0.end,
        range is None ==> r.lower() == 0 && r.upper() == usize::MAX,
{
    FreeRegionIter::new(origin, range, SearchDirection::Before)
}

/// The search for a place for a new pool: first after the origin, then,
/// once that search is over, before it. Some platforms cannot map memory
/// below the program's own image, so every platform looks after first.
pub struct PoolSearch {
    /// Search after the origin.
    pub after: FreeRegionIter,
    /// Search before the origin.
    pub before: FreeRegionIter,
}

impl PoolSearch {
    /// Searches within `range` around `origin`.
    pub fn new(origin: usize, range: Range<usize>) -> (r: Self)
        ensures
            r.after.current() == origin && r.before.current() == origin,
            r.after.direction() == SearchDirection::After,
            r.before.direction() == SearchDirection::Before,
            r.after.lower() == range.start && r.after.upper() == range.end,
            r.before.lower() == range.start && r.before.upper() == range.end,
    {
        let range2 = range.start..range.end;
        PoolSearch { after: after(origin, Some(range)), before: before(origin, Some(range2)) }
    }

    /// The address whose region must be queried next, or `None` once both
    /// searches are over.
    pub fn pending(&self) -> (r: Option<usize>)
        ensures
            self.after.active() ==> r == Some(self.after.current() as usize),
            !self.after.active() && self.before.active() ==> r == Some(
                self.before.current() as usize,
            ),
            !self.after.active() && !self.before.active() ==> r is None,
    {
        match self.after.pending() {
            Some(a) => Some(a),
            None => self.before.pending(),
        }
    }

    /// Takes the answer to the query of the pending address and hands it to
    /// the search that asked.
    pub fn advance(&mut self, answer: RegionQuery, page_size: usize) -> (r: Option<
        Result<usize, region::Error>,
    >)
        requires
            old(self).after.active() || old(self).before.active(),
            page_size > 0,
            old(self).after.active() ==> (answer matches RegionQuery::Mapped { start, end } ==> start
                <= old(self).after.current() < end),
            !old(self).after.active() ==> (answer matches RegionQuery::Mapped { start, end } ==> start
                <= old(self).before.current() < end),
        ensures
            old(self).after.active() ==> advanced(old(self).after, final(self).after, answer, page_size, r),
            old(self).after.active() ==> final(self).before == old(self).before,
            !old(self).after.active() ==> advanced(old(self).before, final(self).before, answer, page_size, r),
            !old(self).after.active() ==> final(self).after == old(self).after,
    {
        if self.after.pending().is_some() {
            self.after.advance(answer, page_size)
        } else {
            self.before.advance(answer, page_size)
        }
    }
}

/// What to do with one result of the pool search.
#[derive(Debug)]
pub enum CandidateStep {
    /// Try to map the new pool at this free address; when the mapping
    /// fails, go on searching.
    TryMap(usize),
    /// Stop the search with this error.
    Fail(ProximityError),
}

/// Decides what one result of the pool search leads to: a free address is
/// tried for the new pool, and a failed query ends the search.
pub fn candidate_step(found: Result<usize, region::Error>) -> (r: CandidateStep)
    ensures
        found is Ok ==> r == CandidateStep::TryMap(found->Ok_0),
        found is Err ==> r == CandidateStep::Fail(ProximityError::RegionError(found->Err_0)),
{
    match found {
        Ok(address) => CandidateStep::TryMap(address),
        Err(e) => CandidateStep::Fail(ProximityError::RegionError(e)),
    }
}

} // verus!
