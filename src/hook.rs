//! Hooks redirect execution from one location to another.
use vstd::prelude::*;

pub mod jmphook;

verus! {

/// Redirects execution from a source location to a destination.
pub trait Hook {
    /// Errors that can happen while hooking.
    type Error;
    /// Guard that undoes the hook.
    type Guard: HookGuard;

    /// Number of bytes that the hook overwrites at its source.
    spec fn hook_len(&self) -> nat;

    /// Hooks `source`, an offset into `memory`, so that execution there
    /// goes on at the address `destination`.
    fn hook(&self, memory: &mut [u8], source: usize, destination: usize) -> (r: Result<
        Self::Guard,
        Self::Error,
    >)
        requires
            source + self.hook_len() <= old(memory)@.len(),
        ensures
            final(memory)@.len() == old(memory)@.len(),
            r is Err ==> final(memory)@ == old(memory)@,
    ;
}

/// Guard of an active hook.
pub trait HookGuard: Sized {
    /// Where the hook was placed.
    spec fn location(&self) -> int;

    /// The bytes that the hook overwrote.
    spec fn original(&self) -> Seq<u8>;

    /// Removes the hook, writing the original bytes back.
    fn unhook(self, memory: &mut [u8])
        requires
            0 <= self.location(),
            self.location() + self.original().len() <= old(memory)@.len(),
        ensures
            final(memory)@ == crate::patcher::overwrite(
                old(memory)@,
                self.location(),
                self.original(),
            ),
    ;
}

} // verus!
