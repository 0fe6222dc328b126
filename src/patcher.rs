//! Patchers overwrite a span of memory and hand back a guard that can put
//! the original bytes back.
//!
//! Memory is seen through a mutable byte slice; a location is an offset into
//! that slice. Whoever builds the slice over raw process memory is
//! responsible for making it valid and writable for the span of the patch.
use vstd::prelude::*;

pub mod byte;
pub mod code;
pub mod mem;

verus! {

/// `mem` with `bytes` written from `at` onwards.
pub open spec fn overwrite(mem: Seq<u8>, at: int, bytes: Seq<u8>) -> Seq<u8> {
    Seq::new(
        mem.len(),
        |i: int|
            if at <= i && i < at + bytes.len() {
                bytes[i - at]
            } else {
                mem[i]
            },
    )
}

/// The bytes of `mem` in `[at, at + len)`.
pub open spec fn window(mem: Seq<u8>, at: int, len: int) -> Seq<u8> {
    mem.subrange(at, at + len)
}

/// All patchers save what they overwrite and can put it back on command.
pub trait Patcher {
    /// Error that can occur when patching; `()` for a patcher that never fails.
    type Error;
    /// Guard that restores the patched span.
    type Guard: PatchGuard;

    /// The patcher never fails.
    spec fn infallible(&self) -> bool;

    /// `e` is an error the patcher may return for `patch` at `location` of
    /// `memory`.
    spec fn may_fail_with(&self, memory: Seq<u8>, location: int, patch: Seq<u8>, e: Self::Error) -> bool;

    /// Overwrites `memory` at `location` with `patch`.
    fn patch(&self, memory: &mut [u8], location: usize, patch: &[u8]) -> (r: Result<
        Self::Guard,
        Self::Error,
    >)
        requires
            location + patch@.len() <= old(memory)@.len(),
        ensures
            r is Ok ==> final(memory)@ == overwrite(old(memory)@, location as int, patch@),
            r is Ok ==> r->Ok_0.location() == location as int,
            r is Ok ==> r->Ok_0.original() == window(old(memory)@, location as int, patch@.len() as int),
            r is Err ==> final(memory)@ == old(memory)@,
            r is Err ==> self.may_fail_with(old(memory)@, location as int, patch@, r->Err_0),
            self.infallible() ==> r is Ok,
    ;
}

/// Guard for one applied patch.
pub trait PatchGuard: Sized {
    /// Where the patch was applied.
    spec fn location(&self) -> int;

    /// The bytes that the patch overwrote.
    spec fn original(&self) -> Seq<u8>;

    /// Writes the original bytes back; the guard is consumed.
    fn restore(self, memory: &mut [u8])
        requires
            0 <= self.location(),
            self.location() + self.original().len() <= old(memory)@.len(),
        ensures
            final(memory)@ == overwrite(old(memory)@, self.location(), self.original()),
    ;
}

/// Writing a span and then writing back what it held gives the memory it
/// started from.
pub proof fn lemma_patch_restore_round_trip(mem: Seq<u8>, at: int, bytes: Seq<u8>)
    requires
        0 <= at,
        at + bytes.len() <= mem.len(),
    ensures
        overwrite(overwrite(mem, at, bytes), at, window(mem, at, bytes.len() as int)) == mem,
{
    assert(overwrite(overwrite(mem, at, bytes), at, window(mem, at, bytes.len() as int)) =~= mem);
}

/// A patch changes exactly the bytes of its span: every byte outside it
/// keeps its value, and the span holds the patch.
pub proof fn lemma_patch_is_local(mem: Seq<u8>, at: int, bytes: Seq<u8>)
    requires
        0 <= at,
        at + bytes.len() <= mem.len(),
    ensures
        overwrite(mem, at, bytes).len() == mem.len(),
        forall|i: int|
            0 <= i < mem.len() && !(at <= i < at + bytes.len()) ==> #[trigger] overwrite(
                mem,
                at,
                bytes,
            )[i] == mem[i],
        window(overwrite(mem, at, bytes), at, bytes.len() as int) == bytes,
{
    assert(window(overwrite(mem, at, bytes), at, bytes.len() as int) =~= bytes);
}

} // verus!
