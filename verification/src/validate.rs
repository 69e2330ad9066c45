//! Argument validation for the address-space calls. It runs first, before any
//! state is touched.

use vstd::prelude::*;
use crate::config::PAGE_SIZE;
use crate::perm::{mask_is_valid, valid_mask};
use crate::region::MapError;

verus! {

/// The outcome of validating `mmap(start, _, perm)`: a misaligned start is refused
/// first, then a bad permission mask.
pub open spec fn spec_validate_mmap(start: usize, perm: usize) -> Result<(), MapError> {
    if start % 4096 != 0 {
        Err(MapError::AlignmentError)
    } else if !valid_mask(perm) {
        Err(MapError::PermissionError)
    } else {
        Ok(())
    }
}

/// The outcome of validating `munmap(start, _)`: only a misaligned start is refused.
pub open spec fn spec_validate_munmap(start: usize) -> Result<(), MapError> {
    if start % 4096 != 0 {
        Err(MapError::AlignmentError)
    } else {
        Ok(())
    }
}

/// Checks the arguments of `mmap`.
pub fn validate_mmap(start: usize, perm: usize) -> (res: Result<(), MapError>)
    ensures
        res == spec_validate_mmap(start, perm),
{
    if start % PAGE_SIZE != 0 {
        Err(MapError::AlignmentError)
    } else if !mask_is_valid(perm) {
        Err(MapError::PermissionError)
    } else {
        Ok(())
    }
}

/// Checks the arguments of `munmap`.
pub fn validate_munmap(start: usize) -> (res: Result<(), MapError>)
    ensures
        res == spec_validate_munmap(start),
{
    if start % PAGE_SIZE != 0 {
        Err(MapError::AlignmentError)
    } else {
        Ok(())
    }
}

} // verus!
