//! Verified core of a small kernel's task-facing system calls: page-granular
//! address-space bookkeeping, per-task telemetry and timer arithmetic.
//!
//! The pieces, leaves first:
//!
//! - [`config`]: the platform constants.
//! - [`timer`]: ticks to microseconds, microseconds to seconds and
//!   microseconds, and the truncated millisecond clock.
//! - [`perm`]: the three-bit permission mask and the page flags it encodes to.
//! - [`telemetry`]: a task's status, syscall counters and start time, and the
//!   report made from them.
//! - [`frame`]: frames of physical memory and the pool that lends them out.
//! - [`region`]: regions of pages and sorted, disjoint lists of them.
//! - [`model`]: the abstract state of an address space and the steps taken on it.
//! - [`space`]: the address space itself, specified against the model.
//! - [`validate`]: the argument checks in front of the address-space calls.
//! - [`task`]: the kernel's record of one task.
//! - [`syscall`]: the system calls and the entry that counts and serves them.
//!
//! Nothing here reads a clock or switches tasks. The caller passes the timer
//! reading in, names the task that a call is made for, and acts on the status
//! that a call leaves behind.

pub mod config;
pub mod frame;
pub mod model;
pub mod perm;
pub mod region;
pub mod space;
pub mod syscall;
pub mod task;
pub mod telemetry;
pub mod timer;
pub mod validate;
