//! The system calls that a task makes about itself: leaving and yielding the
//! processor, reading the clock and its own telemetry, and changing its address
//! space. Each call names the task it acts for. A call returns zero or another
//! non-negative value on success and `-1` on any failure.

use vstd::prelude::*;
use crate::config::{
    SYSCALL_BRK, SYSCALL_EXIT, SYSCALL_GET_TIME, SYSCALL_MMAP, SYSCALL_MUNMAP, SYSCALL_TASK_INFO,
    SYSCALL_YIELD,
};
use crate::frame::FramePool;
use crate::model::SpaceView;
use crate::region::{spec_pages_for, MapError};
use crate::task::Task;
use crate::telemetry::{
    counts_after_record, counts_after_records, lemma_records_count_all, TaskSnapshot, TaskStatus,
};
use crate::timer::{spec_ticks_to_us, spec_to_timeval, ticks_to_us, to_timeval};
use crate::validate::{spec_validate_mmap, validate_mmap, validate_munmap};

verus! {

/// The one value that reports a failed call, whatever went wrong.
pub const FAILURE: isize = -1;

/// What `sys_get_time` does to memory `space`, and what it returns.
pub open spec fn spec_sys_get_time(space: SpaceView, now_ticks: u64, ts: usize) -> (
    SpaceView,
    isize,
) {
    if space.range_mapped(ts as int, 16) {
        (
            space.after_write(
                ts as int,
                spec_to_timeval(spec_ticks_to_us(now_ticks) as u64).spec_bytes(),
            ),
            0isize,
        )
    } else {
        (space, -1isize)
    }
}

/// What `sys_task_info` does to memory `space` for a task with telemetry
/// `stats`, and what it returns.
pub open spec fn spec_sys_task_info(
    space: SpaceView,
    stats: TaskSnapshot,
    now_ticks: u64,
    ti: usize,
) -> (SpaceView, isize) {
    if space.range_mapped(ti as int, 2016) {
        (space.after_write(ti as int, stats.spec_report(now_ticks).spec_bytes()), 0isize)
    } else {
        (space, -1isize)
    }
}

/// Why `sys_mmap` fails, if it does: a refusal of the arguments comes first,
/// then one by the address space.
pub open spec fn spec_sys_mmap_error(
    space: SpaceView,
    available: nat,
    start: usize,
    len: usize,
    prot: usize,
) -> Option<MapError> {
    match spec_validate_mmap(start, prot) {
        Err(e) => Some(e),
        Ok(()) => space.mmap_error(available, start, len),
    }
}

/// What `sys_mmap` does to memory `space` and to a pool of `available` free
/// frames, and what it returns.
pub open spec fn spec_sys_mmap(
    space: SpaceView,
    available: nat,
    start: usize,
    len: usize,
    prot: usize,
) -> (SpaceView, nat, isize) {
    if spec_sys_mmap_error(space, available, start, len, prot) is None {
        (
            space.after_mmap(start, len, prot),
            (available - spec_pages_for(len as int)) as nat,
            0isize,
        )
    } else {
        (space, available, -1isize)
    }
}

/// What `sys_unmap` does to memory `space` and to a pool of `available` free
/// frames, and what it returns.
pub open spec fn spec_sys_unmap(space: SpaceView, available: nat, start: usize, len: usize) -> (
    SpaceView,
    nat,
    isize,
) {
    if space.munmap_finds(start, len) {
        (
            space.after_munmap(start, len),
            (available + spec_pages_for(len as int)) as nat,
            0isize,
        )
    } else {
        (space, available, -1isize)
    }
}

/// What `sys_brk` does to a break at `program_brk` over a heap that starts at
/// `heap_bottom`, and what it returns: the move is granted if the new break
/// stays at or above the heap bottom and can still be reported as a
/// non-negative `isize`.
pub open spec fn spec_sys_brk(heap_bottom: usize, program_brk: usize, size: i32) -> (usize, isize) {
    if heap_bottom <= program_brk + size <= isize::MAX {
        ((program_brk + size) as usize, program_brk as isize)
    } else {
        (program_brk, -1isize)
    }
}

/// The task leaves for good: its status becomes `Exited`, which nothing leaves
/// again. The exit code is not kept. Only the running task can exit.
pub fn sys_exit(task: &mut Task, _exit_code: i32)
    requires
        old(task).stats.status == TaskStatus::Running,
    ensures
        final(task).stats == old(task).stats.spec_with_status(TaskStatus::Exited),
        final(task).space == old(task).space,
        final(task).heap_bottom == old(task).heap_bottom,
        final(task).program_brk == old(task).program_brk,
{
    task.stats.transition(TaskStatus::Exited);
}

/// The running task gives up the processor: its status becomes `Ready`. Always
/// returns zero.
pub fn sys_yield(task: &mut Task) -> (ret: isize)
    requires
        old(task).stats.status == TaskStatus::Running,
    ensures
        ret == 0,
        final(task).stats == old(task).stats.spec_with_status(TaskStatus::Ready),
        final(task).space == old(task).space,
        final(task).heap_bottom == old(task).heap_bottom,
        final(task).program_brk == old(task).program_brk,
{
    task.stats.transition(TaskStatus::Ready);
    0
}

/// Writes the time of timer reading `now_ticks`, as seconds and microseconds,
/// to the sixteen bytes at `ts` in the task's memory. The time zone argument is
/// ignored. Returns zero, or `-1` with nothing written if those bytes are not
/// all mapped.
pub fn sys_get_time(task: &mut Task, now_ticks: u64, ts: usize, _tz: usize) -> (ret: isize)
    requires
        old(task).wf(),
    ensures
        final(task).wf(),
        (final(task).space@, ret) == spec_sys_get_time(old(task).space@, now_ticks, ts),
        final(task).stats == old(task).stats,
        final(task).heap_bottom == old(task).heap_bottom,
        final(task).program_brk == old(task).program_brk,
{
    let us = ticks_to_us(now_ticks);
    let bytes = to_timeval(us).to_bytes();
    if task.space.copy_out(ts, &bytes) {
        0
    } else {
        FAILURE
    }
}

/// Writes the task's report at timer reading `now_ticks` (its status, its
/// syscall counters and the milliseconds since its start) to the bytes at `ti`
/// in the task's memory. Returns zero, or `-1` with nothing written if those
/// bytes are not all mapped.
pub fn sys_task_info(task: &mut Task, now_ticks: u64, ti: usize) -> (ret: isize)
    requires
        old(task).wf(),
    ensures
        final(task).wf(),
        (final(task).space@, ret) == spec_sys_task_info(
            old(task).space@,
            old(task).stats,
            now_ticks,
            ti,
        ),
        final(task).stats == old(task).stats,
        final(task).heap_bottom == old(task).heap_bottom,
        final(task).program_brk == old(task).program_brk,
{
    let bytes = task.stats.report(now_ticks).to_bytes();
    if task.space.copy_out(ti, &bytes) {
        0
    } else {
        FAILURE
    }
}

/// Maps the `len` bytes from `start`, rounded up to whole pages, with the
/// permissions in `prot` (1 read, 2 write, 4 execute). The arguments are
/// checked before anything is touched: a misaligned `start`, an empty mask or a
/// mask with a bit beyond the three fails the call at once. Returns zero on
/// success; `-1`, with the task and the pool unchanged, otherwise.
pub fn sys_mmap(task: &mut Task, pool: &mut FramePool, start: usize, len: usize, prot: usize) -> (ret:
    isize)
    requires
        old(task).wf(),
        old(pool).wf(),
    ensures
        final(task).wf(),
        final(pool).wf(),
        (final(task).space@, final(pool).spec_available(), ret) == spec_sys_mmap(
            old(task).space@,
            old(pool).spec_available(),
            start,
            len,
            prot,
        ),
        start % 4096 != 0 ==> ret == -1 && final(task).space@ == old(task).space@,
        prot == 0 || prot > 7 ==> ret == -1 && final(task).space@ == old(task).space@,
        final(task).stats == old(task).stats,
        final(task).heap_bottom == old(task).heap_bottom,
        final(task).program_brk == old(task).program_brk,
{
    if validate_mmap(start, prot).is_err() {
        return FAILURE;
    }
    match task.space.mmap(pool, start, len, prot) {
        Ok(()) => 0,
        Err(_) => FAILURE,
    }
}

/// Unmaps the region that starts at `start` and is as many pages long as `len`
/// bytes need. Returns zero if there is such a region; `-1`, with the task and
/// the pool unchanged, if `start` is misaligned or no region matches exactly.
pub fn sys_unmap(task: &mut Task, pool: &mut FramePool, start: usize, len: usize) -> (ret: isize)
    requires
        old(task).wf(),
        old(pool).wf(),
    ensures
        final(task).wf(),
        final(pool).wf(),
        (final(task).space@, final(pool).spec_available(), ret) == spec_sys_unmap(
            old(task).space@,
            old(pool).spec_available(),
            start,
            len,
        ),
        final(task).stats == old(task).stats,
        final(task).heap_bottom == old(task).heap_bottom,
        final(task).program_brk == old(task).program_brk,
{
    if validate_munmap(start).is_err() {
        return FAILURE;
    }
    match task.space.munmap(pool, start, len) {
        Ok(()) => 0,
        Err(_) => FAILURE,
    }
}

/// Moves the program break by `size` bytes, up or down. Returns the break as it
/// was before the call; or `-1`, with the break unchanged, if the new break
/// would lie below the heap bottom or could no longer be reported.
pub fn sys_brk(task: &mut Task, size: i32) -> (ret: isize)
    requires
        old(task).wf(),
    ensures
        final(task).wf(),
        (final(task).program_brk, ret) == spec_sys_brk(
            old(task).heap_bottom,
            old(task).program_brk,
            size,
        ),
        final(task).heap_bottom == old(task).heap_bottom,
        final(task).stats == old(task).stats,
        final(task).space == old(task).space,
{
    let old_brk = task.program_brk;
    if size >= 0 {
        let up = size as usize;
        if up > (isize::MAX as usize) - old_brk {
            return FAILURE;
        }
        task.program_brk = old_brk + up;
    } else {
        let down = (-(size as i64)) as usize;
        if down > old_brk - task.heap_bottom {
            return FAILURE;
        }
        task.program_brk = old_brk - down;
    }
    old_brk as isize
}

/// What one system call leaves behind, apart from the counter it raised.
pub struct SyscallEffect {
    /// The task's status after the call.
    pub status: TaskStatus,
    /// The task's memory after the call.
    pub space: SpaceView,
    /// The number of free frames after the call.
    pub available: nat,
    /// The task's program break after the call.
    pub program_brk: usize,
    /// The value handed back to the task; `None` for a task that has exited.
    pub ret: Option<isize>,
}

/// The ids that `syscall` serves.
pub open spec fn spec_is_syscall(id: usize) -> bool {
    ||| id == SYSCALL_EXIT
    ||| id == SYSCALL_YIELD
    ||| id == SYSCALL_GET_TIME
    ||| id == SYSCALL_BRK
    ||| id == SYSCALL_MUNMAP
    ||| id == SYSCALL_MMAP
    ||| id == SYSCALL_TASK_INFO
}

/// Runtime form of [`spec_is_syscall`].
pub fn is_syscall(id: usize) -> (known: bool)
    ensures
        known == spec_is_syscall(id),
{
    id == SYSCALL_EXIT || id == SYSCALL_YIELD || id == SYSCALL_GET_TIME || id == SYSCALL_BRK || id
        == SYSCALL_MUNMAP || id == SYSCALL_MMAP || id == SYSCALL_TASK_INFO
}

/// What system call `id` with arguments `args` does, made at timer reading
/// `now_ticks` by a running task with memory `space`, with telemetry `counted`
/// once the call itself is counted, and with the given heap, while the pool
/// holds `available` free frames.
pub open spec fn spec_syscall(
    space: SpaceView,
    counted: TaskSnapshot,
    heap_bottom: usize,
    program_brk: usize,
    available: nat,
    now_ticks: u64,
    id: usize,
    args: [usize; 3],
) -> SyscallEffect {
    let same = SyscallEffect {
        status: TaskStatus::Running,
        space,
        available,
        program_brk,
        ret: None,
    };
    if id == SYSCALL_EXIT {
        SyscallEffect { status: TaskStatus::Exited, ..same }
    } else if id == SYSCALL_YIELD {
        SyscallEffect { status: TaskStatus::Ready, ret: Some(0isize), ..same }
    } else if id == SYSCALL_GET_TIME {
        let (after, ret) = spec_sys_get_time(space, now_ticks, args[0]);
        SyscallEffect { space: after, ret: Some(ret), ..same }
    } else if id == SYSCALL_TASK_INFO {
        let (after, ret) = spec_sys_task_info(space, counted, now_ticks, args[0]);
        SyscallEffect { space: after, ret: Some(ret), ..same }
    } else if id == SYSCALL_MMAP {
        let (after, left, ret) = spec_sys_mmap(space, available, args[0], args[1], args[2]);
        SyscallEffect { space: after, available: left, ret: Some(ret), ..same }
    } else if id == SYSCALL_MUNMAP {
        let (after, left, ret) = spec_sys_unmap(space, available, args[0], args[1]);
        SyscallEffect { space: after, available: left, ret: Some(ret), ..same }
    } else {
        let (brk, ret) = spec_sys_brk(heap_bottom, program_brk, args[0] as i32);
        SyscallEffect { program_brk: brk, ret: Some(ret), ..same }
    }
}

/// The entry for every system call of the running task: counts the call, then
/// carries it out. Returns what the call hands back to the task, and `None`
/// after `exit`, from which nothing returns to the task.
///
/// `brk` and `exit` read their argument as a 32-bit signed number, the low 32
/// bits of the first argument word.
pub fn syscall(
    task: &mut Task,
    pool: &mut FramePool,
    now_ticks: u64,
    id: usize,
    args: [usize; 3],
) -> (ret: Option<isize>)
    requires
        old(task).wf(),
        old(pool).wf(),
        old(task).stats.status == TaskStatus::Running,
        spec_is_syscall(id),
        old(task).stats.syscall_counts[id as int] < u32::MAX,
    ensures
        final(task).wf(),
        final(pool).wf(),
        final(task).stats.syscall_counts@ == counts_after_record(
            old(task).stats.syscall_counts@,
            id as int,
        ),
        final(task).stats.start_time == old(task).stats.start_time,
        final(task).heap_bottom == old(task).heap_bottom,
        (SyscallEffect {
            status: final(task).stats.status,
            space: final(task).space@,
            available: final(pool).spec_available(),
            program_brk: final(task).program_brk,
            ret,
        }) == spec_syscall(
            old(task).space@,
            final(task).stats.spec_with_status(TaskStatus::Running),
            old(task).heap_bottom,
            old(task).program_brk,
            old(pool).spec_available(),
            now_ticks,
            id,
            args,
        ),
{
    task.stats.record_syscall(id);
    if id == SYSCALL_EXIT {
        sys_exit(task, #[verifier::truncate] (args[0] as i32));
        None
    } else if id == SYSCALL_YIELD {
        Some(sys_yield(task))
    } else if id == SYSCALL_GET_TIME {
        Some(sys_get_time(task, now_ticks, args[0], args[1]))
    } else if id == SYSCALL_TASK_INFO {
        Some(sys_task_info(task, now_ticks, args[0]))
    } else if id == SYSCALL_MMAP {
        Some(sys_mmap(task, pool, args[0], args[1], args[2]))
    } else if id == SYSCALL_MUNMAP {
        Some(sys_unmap(task, pool, args[0], args[1]))
    } else {
        Some(sys_brk(task, #[verifier::truncate] (args[0] as i32)))
    }
}

/// A task that makes `n` calls of one kind and then asks for its report finds
/// the counter of that kind raised by `n` in it, and the counter of the request
/// itself raised by one, as long as the counters have room.
pub proof fn lemma_report_counts_calls(stats: TaskSnapshot, reported: TaskSnapshot, id: usize, n: nat, now_ticks: u64)
    requires
        spec_is_syscall(id),
        id != SYSCALL_TASK_INFO,
        stats.spec_count(id as int) + n <= u32::MAX,
        stats.spec_count(SYSCALL_TASK_INFO as int) < u32::MAX,
        reported.syscall_counts@ == counts_after_record(
            counts_after_records(stats.syscall_counts@, id as int, n),
            SYSCALL_TASK_INFO as int,
        ),
    ensures
        reported.spec_report(now_ticks).syscall_times[id as int] == stats.spec_count(id as int)
            + n,
        reported.spec_report(now_ticks).syscall_times[SYSCALL_TASK_INFO as int]
            == stats.spec_count(SYSCALL_TASK_INFO as int) + 1,
{
    lemma_records_count_all(stats.syscall_counts@, id as int, n, id as int);
    lemma_records_count_all(stats.syscall_counts@, id as int, n, SYSCALL_TASK_INFO as int);
}

} // verus!
