use hookcraft::patcher::byte::{write_bytes, BytePatcher};
use hookcraft::patcher::mem::{PermissionError, PermissionWrapper};
use hookcraft::patcher::{PatchGuard, Patcher};

#[test]
fn byte_test_patch() {
    let mut memory = vec![1u8, 2, 3, 4];
    assert_eq!(memory, [1, 2, 3, 4]);

    let patcher = BytePatcher::new();
    let patch = patcher.patch(&mut memory, 0, &[4, 3, 2, 1]).unwrap();
    assert_eq!(memory, [4, 3, 2, 1]);

    patch.restore(&mut memory);
    assert_eq!(memory, [1, 2, 3, 4]);
}

#[test]
fn byte_test_partial_patch() {
    let mut memory = vec![1u8, 2, 3, 4];
    assert_eq!(memory, [1, 2, 3, 4]);

    let patcher = BytePatcher::new();
    let patch = patcher.patch(&mut memory, 1, &[5, 5]).unwrap();
    assert_eq!(memory, [1, 5, 5, 4]);

    patch.restore(&mut memory);
    assert_eq!(memory, [1, 2, 3, 4]);
}

#[test]
fn mem_test_patch() {
    let mut memory = vec![1u8, 2, 3, 4];
    assert_eq!(memory, [1, 2, 3, 4]);

    let patcher = BytePatcher::new();
    let wrapper = PermissionWrapper::new(patcher);
    let patch = wrapper.patch(&mut memory, 0, &[4, 3, 2, 1]).unwrap();
    assert_eq!(memory, [4, 3, 2, 1]);

    patch.restore(&mut memory);
    assert_eq!(memory, [1, 2, 3, 4]);
}

#[test]
fn permission_guard_reports_its_span() {
    let mut memory = vec![0u8; 8];
    let wrapper = PermissionWrapper::new(BytePatcher::new());
    let guard = wrapper.patch(&mut memory, 3, &[9, 9, 9]).unwrap();
    assert_eq!(guard.span(), (3, 3));
    assert_eq!(memory, [0, 0, 0, 9, 9, 9, 0, 0]);
    guard.restore(&mut memory);
    assert_eq!(memory, [0u8; 8]);
}

#[test]
fn permission_error_wraps_inner_error() {
    let e: PermissionError<()> = PermissionError::CustomError(());
    assert!(matches!(e, PermissionError::CustomError(())));
    let e: PermissionError<()> = PermissionError::ProtectionError(region::Error::UnmappedRegion);
    assert!(matches!(e, PermissionError::ProtectionError(_)));
}

#[test]
fn empty_patch_changes_nothing() {
    let mut memory = vec![7u8, 8, 9];
    let guard = BytePatcher::new().patch(&mut memory, 3, &[]).unwrap();
    assert_eq!(memory, [7, 8, 9]);
    guard.restore(&mut memory);
    assert_eq!(memory, [7, 8, 9]);
}

#[test]
fn two_patches_restored_in_reverse_order() {
    let mut memory = vec![1u8, 2, 3, 4, 5];
    let patcher = BytePatcher::new();
    let first = patcher.patch(&mut memory, 0, &[9, 9, 9]).unwrap();
    let second = patcher.patch(&mut memory, 2, &[7, 7]).unwrap();
    assert_eq!(memory, [9, 9, 7, 7, 5]);
    second.restore(&mut memory);
    assert_eq!(memory, [9, 9, 9, 4, 5]);
    first.restore(&mut memory);
    assert_eq!(memory, [1, 2, 3, 4, 5]);
}

#[test]
fn write_bytes_overwrites_span_only() {
    let mut memory = vec![0u8; 6];
    write_bytes(&mut memory, 2, &[1, 2, 3]);
    assert_eq!(memory, [0, 0, 1, 2, 3, 0]);
}
