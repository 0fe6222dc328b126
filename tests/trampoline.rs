use hookcraft::allocator::proximity::ExecutableMemory;
use hookcraft::allocator::ThreadAllocator;
use hookcraft::allocator::DETOUR_RANGE;
use hookcraft::patcher::byte::BytePatcher;
use hookcraft::patcher::code::{covering, install, pad_with_nops, plan, CodeError, CodePatcher, X86_64};
use hookcraft::patcher::PatchGuard;
use slice_pool::sync::SlicePool;

fn hook_site(prefix: &[u8], patch_len: usize) -> Vec<u8> {
    let mut code = prefix.to_vec();
    code.resize(patch_len + 16, 0xCC);
    code
}

#[test]
fn covering_counts_whole_instructions() {
    assert_eq!(covering(&vec![1, 1, 1], 2), (2, 2));
    assert_eq!(covering(&vec![1, 1, 1], 1), (1, 1));
    assert_eq!(covering(&vec![5, 1], 2), (1, 5));
    assert_eq!(covering(&vec![2, 3, 4], 3), (2, 5));
    assert_eq!(covering(&vec![], 3), (0, 0));
    assert_eq!(covering(&vec![1, 1], 5), (2, 2));
    assert_eq!(covering(&vec![4], 0), (0, 0));
}

#[test]
fn nops_pad_the_patch() {
    assert_eq!(pad_with_nops(&[1, 2], 5), vec![1, 2, 0x90, 0x90, 0x90]);
    assert_eq!(pad_with_nops(&[1, 2], 2), vec![1, 2]);
    assert_eq!(pad_with_nops(&[], 1), vec![0x90]);
}

#[test]
fn plan_stops_on_instruction_boundary() {
    let code = hook_site(&[0x90, 0x90, 0x90], 2);
    let relocation = plan::<X86_64>(0x7000_0000, &code, 2);
    assert_eq!(relocation.overwrite_len(), 2);
    assert_eq!(relocation.len(), 3);
    assert_eq!(relocation.displaced_bytes(), &[0x90, 0x90]);
    assert_eq!(relocation.trampoline_len::<X86_64>(), 20);

    let code = hook_site(&[0x90, 0x90, 0x90], 1);
    let relocation = plan::<X86_64>(0x7000_0000, &code, 1);
    assert_eq!(relocation.overwrite_len(), 1);
    assert_eq!(relocation.len(), 2);
    assert_eq!(relocation.displaced_bytes(), &[0x90]);
}

#[test]
fn plan_extends_over_straddling_instruction() {
    // mov eax, 1 takes five bytes
    let code = hook_site(&[0xB8, 0x01, 0x00, 0x00, 0x00, 0x90], 2);
    let relocation = plan::<X86_64>(0x7000_0000, &code, 2);
    assert_eq!(relocation.overwrite_len(), 5);
    assert_eq!(relocation.len(), 2);
    // mov rbp, rsp takes three bytes
    let code = hook_site(&[0x48, 0x89, 0xE5, 0x90], 2);
    let relocation = plan::<X86_64>(0x7000_0000, &code, 2);
    assert_eq!(relocation.overwrite_len(), 3);
    assert_eq!(relocation.displaced_bytes(), &[0x48, 0x89, 0xE5]);
}

fn allocator_with_pool(len: usize) -> (ThreadAllocator, usize, SlicePool<u8>) {
    let allocator = ThreadAllocator::new(DETOUR_RANGE);
    let pool = SlicePool::new(vec![0u8; len]);
    let base = pool.as_ptr() as usize;
    (allocator, base, pool)
}

/// Builds the code patcher for `prefix` at `base + offset`; returns it with
/// the hook site bytes and the location.
fn build(prefix: &[u8], patch: &[u8], offset: usize) -> (ThreadAllocator, CodePatcher<BytePatcher, X86_64>, Vec<u8>, usize) {
    let (allocator, base, pool) = allocator_with_pool(4096);
    let location = base + offset;
    let site = hook_site(prefix, patch.len());
    let relocation = plan::<X86_64>(location, &site, patch.len());
    let size = relocation.trampoline_len::<X86_64>();
    let memory = allocator.allocate_in(location, size, pool).unwrap();
    match CodePatcher::<BytePatcher, X86_64>::new(BytePatcher::new(), relocation, patch, memory) {
        Ok(patcher) => (allocator, patcher, site, location),
        Err(_) => panic!("building the trampoline failed"),
    }
}

/// The target of the jump at `at` in `bytes`, which runs at `base`.
fn jump_target(bytes: &[u8], at: usize, base: usize) -> i64 {
    match bytes[at] {
        0xEB => (base + at + 2) as i64 + bytes[at + 1] as i8 as i64,
        0xE9 => {
            let rel = i32::from_le_bytes([bytes[at + 1], bytes[at + 2], bytes[at + 3], bytes[at + 4]]);
            (base + at + 5) as i64 + rel as i64
        }
        other => panic!("no jump at {at}: {other:#x}"),
    }
}

#[test]
fn trampoline_relocates_nops_and_jumps_back() {
    let (allocator, patcher, mut site, location) = build(&[0x90, 0x90, 0x90], &[0xAA, 0xBB], 0x100);
    let entry = patcher.original();
    let bytes = patcher.trampoline_bytes();
    assert_eq!(bytes.len(), 20);
    assert_eq!(&bytes[..2], &[0x90, 0x90]);
    assert_eq!(jump_target(&bytes, 2, entry), location as i64 + 2);
    assert_eq!(patcher.payload_bytes(), &[0xAA, 0xBB]);
    assert_eq!(patcher.get_location(), location);

    let before = site.clone();
    let guard = patcher.patch(&mut site).unwrap();
    assert_eq!(&site[..3], &[0xAA, 0xBB, 0x90]);
    assert_eq!(&site[2..], &before[2..]);
    guard.restore(&mut site);
    assert_eq!(site, before);
    assert!(allocator.release(patcher.into_trampoline()));
    assert!(allocator.pools().is_empty());
}

#[test]
fn one_byte_patch_moves_one_nop() {
    let (_allocator, patcher, _site, location) = build(&[0x90, 0x90, 0x90], &[0xCC], 0x100);
    let entry = patcher.original();
    let bytes = patcher.trampoline_bytes();
    assert_eq!(bytes[0], 0x90);
    assert_eq!(jump_target(&bytes, 1, entry), location as i64 + 1);
    assert_eq!(patcher.payload_bytes(), &[0xCC]);
}

#[test]
fn straddling_mov_moves_whole() {
    let (_allocator, patcher, _site, location) = build(&[0x48, 0x89, 0xE5, 0x90], &[0xCC, 0xCC], 0x100);
    let entry = patcher.original();
    let bytes = patcher.trampoline_bytes();
    assert_eq!(&bytes[..3], &[0x48, 0x89, 0xE5]);
    assert_eq!(jump_target(&bytes, 3, entry), location as i64 + 3);
    assert_eq!(patcher.payload_bytes(), &[0xCC, 0xCC, 0x90]);
}

#[test]
fn payload_is_padded_to_instruction_end() {
    let (_allocator, patcher, mut site, _location) =
        build(&[0xB8, 0x01, 0x00, 0x00, 0x00, 0xC3], &[0xE9, 0x00], 0x200);
    assert_eq!(patcher.payload_bytes(), &[0xE9, 0x00, 0x90, 0x90, 0x90]);
    let bytes = patcher.trampoline_bytes();
    assert_eq!(&bytes[..5], &[0xB8, 0x01, 0x00, 0x00, 0x00]);
    let guard = patcher.patch(&mut site).unwrap();
    assert_eq!(&site[..6], &[0xE9, 0x00, 0x90, 0x90, 0x90, 0xC3]);
    guard.restore(&mut site);
    assert_eq!(&site[..6], &[0xB8, 0x01, 0x00, 0x00, 0x00, 0xC3]);
}

fn small_memory(len: usize) -> (ThreadAllocator, ExecutableMemory, usize) {
    let (allocator, base, pool) = allocator_with_pool(len);
    let memory = allocator.allocate_in(base, len, pool).unwrap();
    (allocator, memory, base)
}

#[test]
fn buffer_too_small_leaves_site_untouched() {
    let (allocator, mut memory, base) = small_memory(3);
    let location = base + 0x10;
    let site = hook_site(&[0x90, 0x90, 0x90], 2);
    let before_site = site.clone();
    let before_memory = memory.to_vec();
    let encoded = [0x90, 0x90, 0xEB, 0x0C];
    match install::<()>(&mut memory, &encoded, location) {
        Err(CodeError::BufferTooSmall(allocated, needed, at)) => {
            assert_eq!(allocated, 3);
            assert_eq!(needed, 4);
            assert_eq!(at, location);
        }
        _ => panic!("expected BufferTooSmall"),
    }
    assert_eq!(memory.to_vec(), before_memory);
    assert_eq!(site, before_site);
    assert!(allocator.release(memory));
    assert!(allocator.pools().is_empty());
}

#[test]
fn install_copies_code_that_fits() {
    let (_allocator, mut memory, base) = small_memory(4);
    assert!(install::<()>(&mut memory, &[1, 2, 3, 4], base).is_ok());
    assert_eq!(memory.to_vec(), vec![1, 2, 3, 4]);
}
