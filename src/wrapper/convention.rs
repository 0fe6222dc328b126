//! Conversion of calling conventions to the standardized one, which is the
//! C calling convention.
use vstd::prelude::*;

use crate::code::x64::{jmp_abs, jmp_abs_bytes};

verus! {

/// Generates the code that takes a call in some calling convention to code
/// that expects the standardized one.
pub trait WrapperGenerator {
    /// The code for the calling convention this generator handles.
    spec fn wrapper(target: usize) -> Seq<u8>;

    /// Generates the code that converts a call and goes on at `target`.
    fn generate(target: usize) -> (r: Vec<u8>)
        ensures
            r@ == Self::wrapper(target),
    ;
}

/// Generator for the cdecl calling convention.
pub struct CDeclWrapperGenerator;

impl WrapperGenerator for CDeclWrapperGenerator {
    /// cdecl is the standardized convention: the wrapper jumps straight to
    /// the target.
    open spec fn wrapper(target: usize) -> Seq<u8> {
        jmp_abs_bytes(target)
    }

    fn generate(target: usize) -> (r: Vec<u8>) {
        let jump = jmp_abs(target);
        let mut r: Vec<u8> = Vec::with_capacity(14);
        let mut i: usize = 0;
        while i < 14
            invariant
                i <= 14,
                jump@ == jmp_abs_bytes(target),
                r@ == jump@.subrange(0, i as int),
            decreases 14 - i,
        {
            r.push(jump[i]);
            i = i + 1;
            assert(r@ =~= jump@.subrange(0, i as int));
        }
        assert(r@ =~= jump@);
        r
    }
}

} // verus!
