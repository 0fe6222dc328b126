//! x86-64 code generation.
use vstd::prelude::*;

verus! {

/// Byte `i` (0 for the lowest) of `x` in little-endian order.
pub open spec fn le_byte(x: u64, i: u64) -> u8 {
    ((x >> (8 * i)) & 0xff) as u8
}

/// The bytes of an absolute jump to `target`: `jmp [rip + 0]` followed by
/// the target address in little-endian order.
pub open spec fn jmp_abs_bytes(target: usize) -> Seq<u8> {
    seq![0xffu8, 0x25u8, 0u8, 0u8, 0u8, 0u8] + Seq::new(8, |i: int| le_byte(target as u64, i as u64))
}

/// Generates an absolute jump to `target` and returns its bytes.
pub fn jmp_abs(target: usize) -> (r: [u8; 14])
    ensures
        r@ == jmp_abs_bytes(target),
{
    let t = target as u64;
    let r: [u8; 14] = [
        0xff,
        0x25,
        0x00,
        0x00,
        0x00,
        0x00,
        (t & 0xff) as u8,
        ((t >> 8u64) & 0xff) as u8,
        ((t >> 16u64) & 0xff) as u8,
        ((t >> 24u64) & 0xff) as u8,
        ((t >> 32u64) & 0xff) as u8,
        ((t >> 40u64) & 0xff) as u8,
        ((t >> 48u64) & 0xff) as u8,
        ((t >> 56u64) & 0xff) as u8,
    ];
    assert(t >> 0u64 == t) by (bit_vector);
    assert(r@ =~= jmp_abs_bytes(target));
    r
}

} // verus!
