//! Builds trampolines: the instructions that a patch displaces, relocated
//! into executable memory near the hook site and followed by a jump back.
//!
//! Building runs in two steps around an allocation:
//! [`plan`] decodes the code at the hook site and finds how many bytes the
//! patch must cover, then [`CodePatcher::new`] re-encodes the displaced
//! instructions into the memory allocated for them and prepares the bytes
//! to write at the hook site. Nothing is written at the hook site before
//! [`CodePatcher::patch`].
use vstd::prelude::*;

use std::marker::PhantomData;

use iced_x86::{
    BlockEncoder, BlockEncoderOptions, Code, Decoder, DecoderOptions, IcedError, Instruction,
    InstructionBlock,
};

use crate::allocator::proximity::{in_reach, ExecutableMemory, ProximityError};
use crate::allocator::DETOUR_RANGE;
use crate::patcher::mem::{PermissionError, PermissionWrapper, PermissionWrapperGuard};
use crate::patcher::{overwrite, window, PatchGuard, Patcher};

verus! {

#[verifier::external_type_specification]
#[verifier::external_body]
pub struct ExIcedError(IcedError);

/// Lengths of the instructions that the decoder finds one after another in
/// `code`, decoded with the given bitness.
pub uninterp spec fn decoded_lengths(bitness: u32, code: Seq<u8>) -> Seq<usize>;

/// Sum of the first `k` lengths.
pub open spec fn prefix_sum(lens: Seq<usize>, k: int) -> int
    decreases k,
{
    if k <= 0 || k > lens.len() {
        0
    } else {
        prefix_sum(lens, k - 1) + lens[k - 1]
    }
}

/// Relies on `iced_x86::Decoder`: decoding goes on while a byte is left, and
/// each instruction, valid or not, takes between one and fifteen bytes, so
/// the lengths add up to the length of `code`.
#[verifier::external_body]
fn decode_lengths(bitness: u32, code: &[u8]) -> (r: Vec<usize>)
    requires
        bitness == 16 || bitness == 32 || bitness == 64,
    ensures
        r@ == decoded_lengths(bitness, code@),
        forall|i: int| 0 <= i < r@.len() ==> 1 <= #[trigger] r@[i] <= 15,
        prefix_sum(r@, r@.len() as int) == code@.len(),
{
    Decoder::new(bitness, code, DecoderOptions::NONE).into_iter().map(|i| i.len()).collect()
}

/// The machine code of the trampoline for the instructions in `displaced`,
/// decoded as found at `ip`, followed by a near jump to `back`, all encoded
/// to run at `rip` with every position-relative operand fixed up; `None`
/// when the encoder refuses them.
pub uninterp spec fn relocated(bitness: u32, displaced: Seq<u8>, ip: u64, back: u64, rip: u64) -> Option<
    Seq<u8>,
>;

/// Relies on `iced_x86::Decoder`, `Instruction::with_branch` (which does not
/// fail for `Jmp_rel32_64`) and `BlockEncoder::encode`: the displaced
/// instructions and a jump back, encoded for `rip`. The result depends on
/// the arguments alone.
#[verifier::external_body]
fn encode_relocated(bitness: u32, displaced: &[u8], ip: u64, back: u64, rip: u64) -> (r: Result<
    Vec<u8>,
    IcedError,
>)
    requires
        bitness == 16 || bitness == 32 || bitness == 64,
    ensures
        r is Ok <==> relocated(bitness, displaced@, ip, back, rip) is Some,
        r is Ok ==> r->Ok_0@ == relocated(bitness, displaced@, ip, back, rip)->Some_0,
{
    let mut instructions: Vec<Instruction> = Decoder::with_ip(bitness, displaced, ip, DecoderOptions::NONE)
        .into_iter()
        .collect();
    instructions.push(Instruction::with_branch(Code::Jmp_rel32_64, back)?);
    let block = InstructionBlock::new(&instructions, rip);
    BlockEncoder::encode(bitness, block, BlockEncoderOptions::NONE).map(|result| result.code_buffer)
}

/// Helper functions of an architecture.
pub trait Architecture {
    /// Longest instruction of the architecture, in bytes.
    spec fn max_len() -> nat;

    /// Bitness of the architecture.
    spec fn bits() -> u32;

    /// Gets the maximum instruction length for this architecture.
    fn max_instr_len() -> (r: usize)
        ensures
            r == Self::max_len(),
            r >= 1,
    ;

    /// Gets the bitness of this architecture.
    fn bitness() -> (r: u32)
        ensures
            r == Self::bits(),
            r == 16 || r == 32 || r == 64,
    ;
}

/// The x86-64 architecture.
pub struct X86_64;

impl Architecture for X86_64 {
    open spec fn max_len() -> nat {
        16
    }

    open spec fn bits() -> u32 {
        64
    }

    fn max_instr_len() -> (r: usize) {
        16
    }

    fn bitness() -> (r: u32) {
        64
    }
}

/// Index of the first instruction, from `j` on, that starts at or past
/// `patch_len`; or the number of instructions when there is none.
pub open spec fn cover_from(lens: Seq<usize>, patch_len: int, j: int) -> int
    decreases lens.len() - j,
{
    if j >= lens.len() || prefix_sum(lens, j) >= patch_len {
        j
    } else {
        cover_from(lens, patch_len, j + 1)
    }
}

/// Number of leading instructions that a patch of `patch_len` bytes
/// touches: every instruction that starts before the patch ends.
pub open spec fn cover_count(lens: Seq<usize>, patch_len: int) -> int {
    cover_from(lens, patch_len, 0)
}

/// Bytes that a patch of `patch_len` bytes must overwrite so that no
/// instruction is left cut in two.
pub open spec fn cover_size(lens: Seq<usize>, patch_len: int) -> int {
    prefix_sum(lens, cover_count(lens, patch_len))
}

proof fn lemma_prefix_sum_mono(lens: Seq<usize>, a: int, b: int)
    requires
        0 <= a <= b <= lens.len(),
    ensures
        prefix_sum(lens, a) <= prefix_sum(lens, b),
    decreases b - a,
{
    if a < b {
        lemma_prefix_sum_mono(lens, a, b - 1);
    }
}

proof fn lemma_cover_from_bounds(lens: Seq<usize>, patch_len: int, j: int)
    requires
        0 <= j <= lens.len(),
    ensures
        j <= cover_from(lens, patch_len, j) <= lens.len(),
        forall|k: int|
            j <= k < cover_from(lens, patch_len, j) ==> prefix_sum(lens, k) < patch_len,
        cover_from(lens, patch_len, j) < lens.len() ==> prefix_sum(
            lens,
            cover_from(lens, patch_len, j),
        ) >= patch_len,
    decreases lens.len() - j,
{
    if j < lens.len() && prefix_sum(lens, j) < patch_len {
        lemma_cover_from_bounds(lens, patch_len, j + 1);
    }
}

/// The overwrite never cuts an instruction: it covers whole instructions,
/// every one of them starts before the patch ends, and, unless the
/// instructions run out, it reaches at least as far as the patch.
pub proof fn lemma_cover_is_instruction_aligned(lens: Seq<usize>, patch_len: int)
    ensures
        0 <= cover_count(lens, patch_len) <= lens.len(),
        cover_size(lens, patch_len) == prefix_sum(lens, cover_count(lens, patch_len)),
        forall|k: int|
            0 <= k < cover_count(lens, patch_len) ==> #[trigger] prefix_sum(lens, k) < patch_len,
        cover_count(lens, patch_len) < lens.len() ==> cover_size(lens, patch_len) >= patch_len,
{
    lemma_cover_from_bounds(lens, patch_len, 0);
}

/// Counts the leading instructions, of the given lengths, that a patch of
/// `patch_len` bytes touches, and the bytes they take.
pub fn covering(lens: &Vec<usize>, patch_len: usize) -> (r: (usize, usize))
    requires
        prefix_sum(lens@, lens@.len() as int) <= usize::MAX,
    ensures
        r.0 == cover_count(lens@, patch_len as int),
        r.1 == cover_size(lens@, patch_len as int),
{
    let mut count: usize = 0;
    let mut size: usize = 0;
    proof {
        lemma_cover_from_bounds(lens@, patch_len as int, 0);
    }
    while count < lens.len() && size < patch_len
        invariant
            count <= lens@.len(),
            size == prefix_sum(lens@, count as int),
            prefix_sum(lens@, lens@.len() as int) <= usize::MAX,
            cover_from(lens@, patch_len as int, count as int) == cover_count(lens@, patch_len as int),
        decreases lens@.len() - count,
    {
        proof {
            lemma_prefix_sum_mono(lens@, count + 1, lens@.len() as int);
        }
        size = size + lens[count];
        count = count + 1;
    }
    (count, size)
}

/// The instructions that a patch displaces, which move to the trampoline
/// and are followed there by a jump back to the first instruction the patch
/// leaves alone.
pub struct Relocation {
    /// The bytes of the displaced instructions.
    displaced: Vec<u8>,
    /// Number of displaced instructions.
    count: usize,
    /// Bytes that the patch overwrites.
    size: usize,
    /// Length of the patch that the relocation was planned for.
    patch_len: usize,
    /// Location of the patch.
    location: usize,
}

impl Relocation {
    #[verifier::type_invariant]
    spec fn inv(&self) -> bool {
        &&& self.size >= self.patch_len
        &&& self.displaced@.len() == self.size
        &&& self.location + self.size <= usize::MAX
        &&& self.count <= self.size
        &&& self.size < usize::MAX
    }

    /// Bytes that the patch overwrites.
    pub closed spec fn size(&self) -> int {
        self.size as int
    }

    /// The bytes of the displaced instructions.
    pub closed spec fn displaced(&self) -> Seq<u8> {
        self.displaced@
    }

    /// Length of the patch that the relocation was planned for.
    pub closed spec fn patch_len(&self) -> int {
        self.patch_len as int
    }

    /// Location of the patch.
    pub closed spec fn location(&self) -> int {
        self.location as int
    }

    /// Number of displaced instructions.
    pub closed spec fn count(&self) -> int {
        self.count as int
    }

    /// Where the jump at the end of the trampoline goes: the first byte
    /// after the overwrite.
    pub open spec fn back(&self) -> int {
        self.location() + self.size()
    }

    /// The trampoline's code when it runs at `base`.
    pub open spec fn encoded<A: Architecture>(&self, base: int) -> Option<Seq<u8>> {
        relocated(A::bits(), self.displaced(), self.location() as u64, self.back() as u64, base as u64)
    }

    /// Bytes that the patch overwrites.
    pub fn overwrite_len(&self) -> (r: usize)
        ensures
            r == self.size(),
    {
        self.size
    }

    /// Number of instructions in the trampoline: the displaced ones and the
    /// jump back.
    pub fn len(&self) -> (r: usize)
        ensures
            r == self.count() + 1,
    {
        proof {
            use_type_invariant(self);
        }
        self.count + 1
    }

    /// The bytes of the displaced instructions.
    pub fn displaced_bytes(&self) -> (r: &[u8])
        ensures
            r@ == self.displaced(),
    {
        self.displaced.as_slice()
    }

    /// Size of the memory to allocate for the trampoline: twice the bytes
    /// moved plus one longest instruction, since re-encoding may lengthen
    /// instructions and a jump is added.
    pub fn trampoline_len<A: Architecture>(&self) -> (r: usize)
        requires
            2 * self.size() + A::max_len() <= usize::MAX,
        ensures
            r == 2 * self.size() + A::max_len(),
    {
        self.size * 2 + A::max_instr_len()
    }
}

/// Decodes the code at the hook site and plans the relocation of the
/// instructions that a patch of `patch_len` bytes displaces.
///
/// `code` holds the bytes read at `location`: the length of the patch plus
/// one longest instruction, so that the last instruction the patch touches
/// is read whole.
pub fn plan<A: Architecture>(location: usize, code: &[u8], patch_len: usize) -> (r: Relocation)
    requires
        code@.len() == patch_len + A::max_len(),
        location + code@.len() <= usize::MAX,
        2 * code@.len() + A::max_len() <= usize::MAX,
    ensures
        r.size() == cover_size(decoded_lengths(A::bits(), code@), patch_len as int),
        r.count() == cover_count(decoded_lengths(A::bits(), code@), patch_len as int),
        r.displaced() == code@.subrange(0, r.size()),
        r.size() >= patch_len,
        r.size() <= code@.len(),
        r.patch_len() == patch_len,
        r.location() == location,
        2 * r.size() + A::max_len() <= usize::MAX,
{
    let lens = decode_lengths(A::bitness(), code);
    let ghost all = lens@;
    let (count, size) = covering(&lens, patch_len);
    proof {
        lemma_cover_from_bounds(all, patch_len as int, 0);
        lemma_prefix_sum_mono(all, count as int, all.len() as int);
        lemma_count_le_size(all, count as int);
    }
    let mut displaced: Vec<u8> = Vec::with_capacity(size);
    let mut i: usize = 0;
    while i < size
        invariant
            i <= size,
            size <= code@.len(),
            displaced@ == code@.subrange(0, i as int),
        decreases size - i,
    {
        displaced.push(code[i]);
        i = i + 1;
        assert(displaced@ =~= code@.subrange(0, i as int));
    }
    Relocation { displaced, count, size, patch_len, location }
}

/// Each instruction takes at least one byte, so `k` instructions take at
/// least `k` bytes.
proof fn lemma_count_le_size(lens: Seq<usize>, k: int)
    requires
        0 <= k <= lens.len(),
        forall|i: int| 0 <= i < lens.len() ==> 1 <= #[trigger] lens[i],
    ensures
        k <= prefix_sum(lens, k),
    decreases k,
{
    if k > 0 {
        lemma_count_le_size(lens, k - 1);
    }
}

/// The patch followed by no-ops (`0x90`) up to `size` bytes.
pub open spec fn padded(patch: Seq<u8>, size: int) -> Seq<u8> {
    Seq::new(size as nat, |i: int| if i < patch.len() { patch[i] } else { 0x90u8 })
}

/// Extends `patch` with no-ops up to `size` bytes.
pub fn pad_with_nops(patch: &[u8], size: usize) -> (r: Vec<u8>)
    requires
        patch@.len() <= size,
    ensures
        r@ == padded(patch@, size as int),
{
    let mut out: Vec<u8> = Vec::with_capacity(size);
    let mut i: usize = 0;
    while i < size
        invariant
            i <= size,
            patch@.len() <= size,
            out@ == padded(patch@, i as int),
        decreases size - i,
    {
        if i < patch.len() {
            out.push(patch[i]);
        } else {
            out.push(0x90u8);
        }
        i = i + 1;
        assert(out@ =~= padded(patch@, i as int));
    }
    out
}

/// Error types for [`CodePatcher`].
#[derive(Debug)]
pub enum CodeError<E> {
    /// Writing to memory failed.
    PermissionError(PermissionError<E>),
    /// Decoding the hook site or encoding the trampoline failed.
    IcedError(IcedError),
    /// Setting the protection of the trampoline failed.
    BufferError(region::Error),
    /// Allocating the trampoline failed.
    ProximityError(ProximityError),
    /// The memory allocated for the trampoline is too small: the bytes
    /// allocated, the bytes needed, and the location of the hook.
    BufferTooSmall(usize, usize, usize),
}

/// Copies an encoded trampoline to the start of `original` when it fits,
/// and reports `BufferTooSmall` without writing anything when it does not.
pub fn install<E>(original: &mut ExecutableMemory, encoded: &[u8], location: usize) -> (r: Result<
    (),
    CodeError<E>,
>)
    ensures
        encoded@.len() > old(original).bytes().len() ==> (r matches Err(
            CodeError::BufferTooSmall(allocated, needed, at),
        ) && allocated == old(original).bytes().len() && needed == encoded@.len() && at
            == location),
        encoded@.len() > old(original).bytes().len() ==> *final(original) == *old(original),
        encoded@.len() <= old(original).bytes().len() ==> r is Ok,
        final(original).addr() == old(original).addr(),
        final(original).bytes().len() == old(original).bytes().len(),
        r is Ok ==> final(original).bytes().subrange(0, encoded@.len() as int) == encoded@,
{
    let allocated = original.len();
    if encoded.len() > allocated {
        return Err(CodeError::BufferTooSmall(allocated, encoded.len(), location));
    }
    original.write(encoded);
    Ok(())
}

/// Patches code with more bytes than given where needed, so that no
/// instruction is cut, and keeps the displaced instructions callable.
///
/// The bytes to write are always written through a [`PermissionWrapper`],
/// since code is usually read-only.
pub struct CodePatcher<P: Patcher, A: Architecture> {
    /// Patcher that writes the prepared bytes.
    patcher: PermissionWrapper<P>,
    /// The trampoline: the displaced code, relocated, and a jump back.
    original: ExecutableMemory,
    /// Bytes to write at the location.
    patch: Vec<u8>,
    /// Location to patch.
    location: usize,
    /// Architecture of the code.
    arch: PhantomData<A>,
}

impl<P: Patcher, A: Architecture> CodePatcher<P, A> {
    /// Bytes written at the location: the patch padded with no-ops to the
    /// end of the last instruction it touches.
    pub closed spec fn payload(&self) -> Seq<u8> {
        self.patch@
    }

    /// Location of the patch.
    pub closed spec fn location(&self) -> int {
        self.location as int
    }

    /// The trampoline memory.
    pub closed spec fn trampoline(&self) -> ExecutableMemory {
        self.original
    }

    /// The wrapped patcher.
    pub closed spec fn patcher(&self) -> P {
        self.patcher.inner()
    }

    /// Builds the trampoline of `relocation` in `original`, memory of
    /// `relocation.trampoline_len()` bytes within reach of the location, and
    /// prepares the bytes to write at the location.
    ///
    /// It succeeds exactly when the encoder takes the displaced instructions
    /// and their code fits in `original`. On failure nothing has been
    /// written anywhere, and `original` comes back unchanged with the error
    /// for the caller to release.
    pub fn new(patcher: P, relocation: Relocation, patch: &[u8], original: ExecutableMemory) -> (r:
        Result<Self, (CodeError<P::Error>, ExecutableMemory)>)
        requires
            patch@.len() == relocation.patch_len(),
            original.bytes().len() == 2 * relocation.size() + A::max_len(),
            in_reach(relocation.location(), DETOUR_RANGE as int, original.addr()),
        ensures
            r is Ok <==> relocation.encoded::<A>(original.addr()) is Some
                && relocation.encoded::<A>(original.addr())->Some_0.len() <= original.bytes().len(),
            r is Ok ==> r->Ok_0.trampoline().bytes().subrange(
                0,
                relocation.encoded::<A>(original.addr())->Some_0.len() as int,
            ) == relocation.encoded::<A>(original.addr())->Some_0,
            r is Ok ==> r->Ok_0.trampoline().addr() == original.addr(),
            r is Ok ==> r->Ok_0.trampoline().bytes().len() == original.bytes().len(),
            r is Ok ==> r->Ok_0.payload() == padded(patch@, relocation.size()),
            r is Ok ==> r->Ok_0.location() == relocation.location(),
            r is Ok ==> r->Ok_0.patcher() == patcher,
            r is Err ==> r->Err_0.1 == original,
            relocation.encoded::<A>(original.addr()) is None ==> r matches Err(
                (CodeError::IcedError(_), _),
            ),
            relocation.encoded::<A>(original.addr()) is Some
                && relocation.encoded::<A>(original.addr())->Some_0.len() > original.bytes().len()
                ==> (r matches Err((CodeError::BufferTooSmall(allocated, needed, at), _))
                && allocated == original.bytes().len() && needed == relocation.encoded::<A>(
                original.addr(),
            )->Some_0.len() && at == relocation.location()),
    {
        proof {
            use_type_invariant(&relocation);
        }
        let mut original = original;
        let base = original.address();
        let back = relocation.location + relocation.size;
        let encoded = match encode_relocated(
            A::bitness(),
            relocation.displaced.as_slice(),
            relocation.location as u64,
            back as u64,
            base as u64,
        ) {
            Ok(bytes) => bytes,
            Err(e) => {
                return Err((CodeError::IcedError(e), original));
            },
        };
        match install::<P::Error>(&mut original, encoded.as_slice(), relocation.location) {
            Ok(()) => {},
            Err(e) => {
                return Err((e, original));
            },
        }
        let payload = pad_with_nops(patch, relocation.size);
        Ok(CodePatcher {
            patcher: PermissionWrapper::new(patcher),
            original,
            patch: payload,
            location: relocation.location,
            arch: PhantomData,
        })
    }

    /// Address of the trampoline: calling it acts as calling the original,
    /// unpatched code, whether the patch is applied or not.
    pub fn original(&self) -> (r: usize)
        ensures
            r == self.trampoline().addr(),
    {
        self.original.address()
    }

    /// Location of the patch.
    pub fn get_location(&self) -> (r: usize)
        ensures
            r == self.location(),
    {
        self.location
    }

    /// Bytes written at the location.
    pub fn payload_bytes(&self) -> (r: &[u8])
        ensures
            r@ == self.payload(),
    {
        self.patch.as_slice()
    }

    /// A copy of the trampoline's bytes.
    pub fn trampoline_bytes(&self) -> (r: Vec<u8>)
        ensures
            r@ == self.trampoline().bytes(),
    {
        self.original.to_vec()
    }

    /// Writes the prepared bytes at the location, which `memory` starts at,
    /// returning a guard for the patch.
    pub fn patch(&self, memory: &mut [u8]) -> (r: Result<
        PermissionWrapperGuard<P::Guard>,
        PermissionError<P::Error>,
    >)
        requires
            self.payload().len() <= old(memory)@.len(),
        ensures
            r is Ok ==> final(memory)@ == overwrite(old(memory)@, 0, self.payload()),
            r is Ok ==> r->Ok_0.location() == 0,
            r is Ok ==> r->Ok_0.original() == window(old(memory)@, 0, self.payload().len() as int),
            r is Ok ==> r->Ok_0.span_location() == 0,
            r is Ok ==> r->Ok_0.span_len() == self.payload().len(),
            r is Err ==> final(memory)@ == old(memory)@,
            r is Err ==> (r->Err_0 matches PermissionError::CustomError(e)
                && self.patcher().may_fail_with(old(memory)@, 0, self.payload(), e)),
            self.patcher().infallible() ==> r is Ok,
    {
        self.patcher.patch(memory, 0, self.patch.as_slice())
    }

    /// Takes the patcher apart, handing back the trampoline memory so that
    /// it can be released once the trampoline is no longer in use.
    pub fn into_trampoline(self) -> (r: ExecutableMemory)
        ensures
            r == self.trampoline(),
    {
        self.original
    }

}

} // verus!
