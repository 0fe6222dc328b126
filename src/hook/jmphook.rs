//! A hook that redirects execution with an absolute `jmp`.
use vstd::prelude::*;

use crate::code::x64::{jmp_abs, jmp_abs_bytes};
use crate::hook::{Hook, HookGuard};
use crate::patcher::{overwrite, window, PatchGuard, Patcher};

verus! {

/// Simple jump hook.
pub struct JmpHook<P> {
    /// Patcher that writes the jump.
    patcher: P,
}

impl<P: Patcher> JmpHook<P> {
    /// Creates a new jump hook.
    pub fn new(patcher: P) -> (r: Self)
        ensures
            r.patcher() == patcher,
    {
        JmpHook { patcher }
    }

    /// The patcher that writes the jump.
    pub closed spec fn patcher(&self) -> P {
        self.patcher
    }
}

impl<P: Patcher> Hook for JmpHook<P> {
    type Error = P::Error;

    type Guard = JmpHookGuard<P::Guard>;

    open spec fn hook_len(&self) -> nat {
        14
    }

    fn hook(&self, memory: &mut [u8], source: usize, destination: usize) -> (r: Result<
        JmpHookGuard<P::Guard>,
        P::Error,
    >)
        ensures
            r is Ok ==> final(memory)@ == overwrite(
                old(memory)@,
                source as int,
                jmp_abs_bytes(destination),
            ),
            r is Ok ==> r->Ok_0.location() == source,
            r is Ok ==> r->Ok_0.original() == window(old(memory)@, source as int, 14),
            r is Err ==> self.patcher().may_fail_with(
                old(memory)@,
                source as int,
                jmp_abs_bytes(destination),
                r->Err_0,
            ),
            self.patcher().infallible() ==> r is Ok,
    {
        let jump = jmp_abs(destination);
        let guard = self.patcher.patch(memory, source, jump.as_slice())?;
        Ok(JmpHookGuard::new(guard))
    }
}

/// Guard for jump hooks.
pub struct JmpHookGuard<G: PatchGuard> {
    /// Guard of the patch that wrote the jump.
    guard: G,
}

impl<G: PatchGuard> JmpHookGuard<G> {
    /// Creates a new jump hook guard that wraps `guard`.
    fn new(guard: G) -> (r: Self)
        ensures
            r.guard == guard,
    {
        JmpHookGuard { guard }
    }

    /// The guard of the underlying patch.
    pub fn patch(&self) -> (r: &G)
        ensures
            r.location() == self.location(),
            r.original() == self.original(),
    {
        &self.guard
    }
}

impl<G: PatchGuard> HookGuard for JmpHookGuard<G> {
    closed spec fn location(&self) -> int {
        self.guard.location()
    }

    closed spec fn original(&self) -> Seq<u8> {
        self.guard.original()
    }

    fn unhook(self, memory: &mut [u8]) {
        self.guard.restore(memory);
    }
}

} // verus!
