use task_syscalls::region::MapError;
use task_syscalls::validate::{validate_mmap, validate_munmap};

#[test]
fn a_misaligned_start_is_an_alignment_error() {
    assert_eq!(validate_mmap(0x1001, 3), Err(MapError::AlignmentError));
    assert_eq!(validate_mmap(1, 3), Err(MapError::AlignmentError));
    assert_eq!(validate_mmap(0x1fff, 7), Err(MapError::AlignmentError));
    assert_eq!(validate_mmap(usize::MAX, 1), Err(MapError::AlignmentError));
    assert_eq!(validate_munmap(0x1001), Err(MapError::AlignmentError));
    assert_eq!(validate_munmap(4095), Err(MapError::AlignmentError));
}

#[test]
fn a_bad_mask_is_a_permission_error() {
    assert_eq!(validate_mmap(0x1000, 0), Err(MapError::PermissionError));
    assert_eq!(validate_mmap(0x1000, 8), Err(MapError::PermissionError));
    assert_eq!(validate_mmap(0x1000, 0xff), Err(MapError::PermissionError));
    assert_eq!(validate_mmap(0, usize::MAX), Err(MapError::PermissionError));
}

#[test]
fn alignment_is_checked_before_the_mask() {
    assert_eq!(validate_mmap(0x1001, 0), Err(MapError::AlignmentError));
    assert_eq!(validate_mmap(7, 8), Err(MapError::AlignmentError));
}

#[test]
fn aligned_starts_and_valid_masks_pass() {
    for mask in 1..=7usize {
        assert_eq!(validate_mmap(0, mask), Ok(()));
        assert_eq!(validate_mmap(0x1000, mask), Ok(()));
        assert_eq!(validate_mmap(usize::MAX - 4095, mask), Ok(()));
    }
    assert_eq!(validate_munmap(0), Ok(()));
    assert_eq!(validate_munmap(0x7000), Ok(()));
}
