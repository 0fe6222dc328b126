//! A patcher for memory that is normally not writable.
use vstd::prelude::*;

use crate::patcher::{overwrite, window, PatchGuard, Patcher};

verus! {

/// Errors of a [`PermissionWrapper`].
#[derive(Debug)]
pub enum PermissionError<E> {
    /// Setting memory protections failed.
    ProtectionError(region::Error),
    /// The wrapped patcher failed.
    CustomError(E),
}

/// Wraps a patcher to write to memory that is normally read-only.
///
/// Around each patch and each restore, the pages covering
/// `[location, location + len)` are made readable, writable and executable,
/// and their protection is put back afterwards. The span to raise is the one
/// that [`PermissionWrapperGuard::span`] reports; the wrapped patcher must not
/// write outside the span of its patch.
pub struct PermissionWrapper<P: Patcher> {
    /// Underlying patcher.
    patcher: P,
}

impl<P: Patcher> PermissionWrapper<P> {
    /// Creates a new [`PermissionWrapper`].
    pub fn new(patcher: P) -> (r: Self)
        ensures
            r.inner() == patcher,
    {
        PermissionWrapper { patcher }
    }

    /// The wrapped patcher.
    pub closed spec fn inner(&self) -> P {
        self.patcher
    }
}

impl<P: Patcher> Patcher for PermissionWrapper<P> {
    type Error = PermissionError<P::Error>;

    type Guard = PermissionWrapperGuard<P::Guard>;

    /// The wrapper fails only where the wrapped patcher does.
    open spec fn infallible(&self) -> bool {
        self.inner().infallible()
    }

    /// The wrapper's errors are those of the wrapped patcher, carried
    /// unchanged in `CustomError`.
    open spec fn may_fail_with(
        &self,
        memory: Seq<u8>,
        location: int,
        patch: Seq<u8>,
        e: PermissionError<P::Error>,
    ) -> bool {
        match e {
            PermissionError::CustomError(inner) => self.inner().may_fail_with(
                memory,
                location,
                patch,
                inner,
            ),
            PermissionError::ProtectionError(_) => false,
        }
    }

    fn patch(&self, memory: &mut [u8], location: usize, patch: &[u8]) -> (r: Result<
        PermissionWrapperGuard<P::Guard>,
        PermissionError<P::Error>,
    >)
        ensures
            r is Ok ==> r->Ok_0.span_location() == location,
            r is Ok ==> r->Ok_0.span_len() == patch@.len(),
            r is Err ==> r->Err_0 is CustomError,
    {
        match self.patcher.patch(memory, location, patch) {
            Ok(g) => Ok(PermissionWrapperGuard::guard(g, location, patch.len())),
            Err(e) => Err(PermissionError::CustomError(e)),
        }
    }
}

/// Guard of a [`PermissionWrapper`] patch: it restores the wrapped patch,
/// after which the caller puts the protection of its span back.
pub struct PermissionWrapperGuard<G: PatchGuard> {
    /// Guard of the wrapped patcher.
    guard: G,
    /// Location of the patch.
    location: usize,
    /// Length of the patch.
    len: usize,
}

impl<G: PatchGuard> PermissionWrapperGuard<G> {
    /// Wraps the guard of a patch of `len` bytes at `location`.
    fn guard(guard: G, location: usize, len: usize) -> (r: Self)
        ensures
            r.guard == guard,
            r.location == location,
            r.len == len,
    {
        PermissionWrapperGuard { guard, location, len }
    }

    /// The span whose protection is raised around writes: its location and
    /// its length.
    pub fn span(&self) -> (r: (usize, usize))
        ensures
            r.0 == self.span_location(),
            r.1 == self.span_len(),
    {
        (self.location, self.len)
    }

    /// Location of the span whose protection is raised.
    pub closed spec fn span_location(&self) -> int {
        self.location as int
    }

    /// Length of the span whose protection is raised.
    pub closed spec fn span_len(&self) -> int {
        self.len as int
    }
}

impl<G: PatchGuard> PatchGuard for PermissionWrapperGuard<G> {
    closed spec fn location(&self) -> int {
        self.guard.location()
    }

    closed spec fn original(&self) -> Seq<u8> {
        self.guard.original()
    }

    fn restore(self, memory: &mut [u8]) {
        self.guard.restore(memory);
    }
}

} // verus!
