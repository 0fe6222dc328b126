//! A patcher that writes bytes directly.
use vstd::prelude::*;

use crate::patcher::{overwrite, window, PatchGuard, Patcher};

verus! {

/// Patcher for overwriting memory with byte arrays. It never fails.
pub struct BytePatcher;

impl BytePatcher {
    /// Creates a new [`BytePatcher`].
    pub fn new() -> (r: Self) {
        BytePatcher
    }
}

impl Patcher for BytePatcher {
    type Error = ();

    type Guard = BytePatchGuard;

    open spec fn infallible(&self) -> bool {
        true
    }

    open spec fn may_fail_with(&self, memory: Seq<u8>, location: int, patch: Seq<u8>, e: ()) -> bool {
        false
    }

    fn patch(&self, memory: &mut [u8], location: usize, patch: &[u8]) -> (r: Result<
        BytePatchGuard,
        (),
    >)
        ensures
            r is Ok,
    {
        Ok(BytePatchGuard::patch(memory, location, patch))
    }
}

/// Guard for a byte patch: it holds the bytes it overwrote.
pub struct BytePatchGuard {
    /// Original data at `location`.
    original: Vec<u8>,
    /// Location of the patch.
    location: usize,
}

impl BytePatchGuard {
    /// Copies out the bytes under the patch, writes the patch, and returns a
    /// guard holding the copy.
    fn patch(memory: &mut [u8], location: usize, patch: &[u8]) -> (r: Self)
        requires
            location + patch@.len() <= old(memory)@.len(),
        ensures
            final(memory)@ == overwrite(old(memory)@, location as int, patch@),
            r.location == location,
            r.original@ == window(old(memory)@, location as int, patch@.len() as int),
    {
        let mut original: Vec<u8> = Vec::with_capacity(patch.len());
        let mut i: usize = 0;
        while i < patch.len()
            invariant
                i <= patch@.len(),
                location + patch@.len() <= memory@.len(),
                memory@ == old(memory)@,
                original@ == window(old(memory)@, location as int, i as int),
            decreases patch@.len() - i,
        {
            original.push(memory[location + i]);
            i = i + 1;
            assert(original@ =~= window(old(memory)@, location as int, i as int));
        }
        write_bytes(memory, location, patch);
        BytePatchGuard { original, location }
    }
}

impl PatchGuard for BytePatchGuard {
    closed spec fn location(&self) -> int {
        self.location as int
    }

    closed spec fn original(&self) -> Seq<u8> {
        self.original@
    }

    fn restore(self, memory: &mut [u8]) {
        write_bytes(memory, self.location, self.original.as_slice());
    }
}

/// Copies `bytes` into `memory` from `at` onwards.
pub fn write_bytes(memory: &mut [u8], at: usize, bytes: &[u8])
    requires
        at + bytes@.len() <= old(memory)@.len(),
    ensures
        final(memory)@ == overwrite(old(memory)@, at as int, bytes@),
{
    let len: usize = memory.len();
    let mut i: usize = 0;
    while i < bytes.len()
        invariant
            i <= bytes@.len(),
            at + bytes@.len() <= memory@.len(),
            memory@.len() == len,
            memory@ == overwrite(old(memory)@, at as int, bytes@.subrange(0, i as int)),
        decreases bytes@.len() - i,
    {
        memory[at + i] = bytes[i];
        i = i + 1;
        assert(memory@ =~= overwrite(old(memory)@, at as int, bytes@.subrange(0, i as int)));
    }
    assert(bytes@.subrange(0, i as int) =~= bytes@);
}

} // verus!
