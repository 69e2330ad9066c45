//! Platform constants shared by every component. Specifications that
//! calculate with the page size or the time units write the numbers out, so
//! that the arithmetic stays linear.

use vstd::prelude::*;

verus! {

/// Bytes in one page, the granularity of every mapping.
pub const PAGE_SIZE: usize = 4096;

/// Number of counters in a task's syscall table; valid syscall ids are `0..MAX_SYSCALL_NUM`.
pub const MAX_SYSCALL_NUM: usize = 500;

/// Id of the `exit` system call.
pub const SYSCALL_EXIT: usize = 93;

/// Id of the `yield` system call.
pub const SYSCALL_YIELD: usize = 124;

/// Id of the `get_time` system call.
pub const SYSCALL_GET_TIME: usize = 169;

/// Id of the `brk` system call.
pub const SYSCALL_BRK: usize = 214;

/// Id of the `munmap` system call.
pub const SYSCALL_MUNMAP: usize = 215;

/// Id of the `mmap` system call.
pub const SYSCALL_MMAP: usize = 222;

/// Id of the `task_info` system call.
pub const SYSCALL_TASK_INFO: usize = 410;

/// Hardware timer ticks per second.
pub const CLOCK_FREQ: u64 = 12_500_000;

/// Microseconds per second.
pub const MICRO_PER_SEC: u64 = 1_000_000;

/// Microseconds per millisecond.
pub const MICRO_PER_MSEC: u64 = 1_000;

/// Milliseconds per second.
pub const MSEC_PER_SEC: u64 = 1_000;

/// Mask that truncates a second count to the 16-bit window used for elapsed time.
pub const SECONDS_WINDOW_MASK: u64 = 0xffff;

} // verus!
