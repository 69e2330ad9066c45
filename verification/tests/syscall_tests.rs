use task_syscalls::config::{
    MAX_SYSCALL_NUM, SYSCALL_BRK, SYSCALL_EXIT, SYSCALL_GET_TIME, SYSCALL_MMAP, SYSCALL_MUNMAP,
    SYSCALL_TASK_INFO, SYSCALL_YIELD,
};
use task_syscalls::frame::FramePool;
use task_syscalls::perm::Access;
use task_syscalls::region::MemoryRegion;
use task_syscalls::syscall::{
    is_syscall, sys_brk, sys_exit, sys_get_time, sys_mmap, sys_task_info, sys_unmap, sys_yield,
    syscall, FAILURE,
};
use task_syscalls::task::Task;
use task_syscalls::telemetry::{TaskStatus, TASKINFO_BYTES, TASKINFO_COUNTS_OFFSET, TASKINFO_TIME_OFFSET};

const HEAP_BOTTOM: usize = 0x10_0000;
const TICKS_PER_SEC: u64 = 12_500_000;

fn running_task(start_ticks: u64) -> Task {
    let mut task = Task::new(start_ticks, HEAP_BOTTOM);
    task.stats.transition(TaskStatus::Ready);
    task.stats.transition(TaskStatus::Running);
    task
}

fn word_at(task: &Task, addr: usize) -> u64 {
    let bytes = task.space.copy_in(addr, 8).unwrap();
    let mut word = [0u8; 8];
    word.copy_from_slice(&bytes);
    u64::from_le_bytes(word)
}

fn counter_at(task: &Task, ti: usize, id: usize) -> u32 {
    let bytes = task.space.copy_in(ti + TASKINFO_COUNTS_OFFSET + 4 * id, 4).unwrap();
    let mut word = [0u8; 4];
    word.copy_from_slice(&bytes);
    u32::from_le_bytes(word)
}

#[test]
fn a_new_task_has_nothing_mapped_and_an_empty_heap() {
    let task = Task::new(42, HEAP_BOTTOM);
    assert_eq!(task.stats.status, TaskStatus::UnInit);
    assert_eq!(task.stats.start_time, 42);
    assert_eq!(task.space.region_count(), 0);
    assert_eq!(task.heap_bottom, HEAP_BOTTOM);
    assert_eq!(task.program_brk, HEAP_BOTTOM);
}

#[test]
fn sys_mmap_with_a_misaligned_start_fails_and_changes_nothing() {
    let mut pool = FramePool::new(4);
    let mut task = running_task(0);
    assert_eq!(sys_mmap(&mut task, &mut pool, 0x2000, 4096, 3), 0);
    for start in [0x1001usize, 1, 0x0fff, 0x1800, usize::MAX] {
        for prot in [0usize, 1, 3, 7, 8] {
            assert_eq!(sys_mmap(&mut task, &mut pool, start, 4096, prot), -1);
        }
    }
    assert_eq!(task.space.region_count(), 1);
    assert_eq!(
        task.space.region(0),
        Some(MemoryRegion { start_page: 2, page_count: 1, permissions: 3 })
    );
    assert_eq!(pool.available(), 3);
}

#[test]
fn sys_mmap_with_a_bad_mask_fails() {
    let mut pool = FramePool::new(4);
    let mut task = running_task(0);
    for prot in [0usize, 8, 9, 15, 16, 0x100, usize::MAX] {
        assert_eq!(sys_mmap(&mut task, &mut pool, 0x1000, 4096, prot), -1);
    }
    assert_eq!(task.space.region_count(), 0);
    assert_eq!(pool.available(), 4);
}

#[test]
fn sys_mmap_accepts_every_valid_mask() {
    let mut pool = FramePool::new(7);
    let mut task = running_task(0);
    for prot in 1..=7usize {
        let start = prot * 0x1000;
        assert_eq!(sys_mmap(&mut task, &mut pool, start, 1, prot), 0);
        assert_eq!(task.space.check_access(start, Access::Read), prot & 1 != 0);
        assert_eq!(task.space.check_access(start, Access::Write), prot & 2 != 0);
        assert_eq!(task.space.check_access(start, Access::Execute), prot & 4 != 0);
    }
    assert_eq!(pool.available(), 0);
    assert_eq!(sys_mmap(&mut task, &mut pool, 0x8000, 1, 1), FAILURE);
}

#[test]
fn sys_mmap_fails_for_an_empty_or_overlapping_range() {
    let mut pool = FramePool::new(4);
    let mut task = running_task(0);
    assert_eq!(sys_mmap(&mut task, &mut pool, 0x1000, 0, 3), -1);
    assert_eq!(sys_mmap(&mut task, &mut pool, 0x1000, 8192, 3), 0);
    assert_eq!(sys_mmap(&mut task, &mut pool, 0x2000, 4096, 3), -1);
    assert_eq!(pool.available(), 2);
}

#[test]
fn sys_unmap_needs_an_aligned_exact_match() {
    let mut pool = FramePool::new(4);
    let mut task = running_task(0);
    assert_eq!(sys_mmap(&mut task, &mut pool, 0x1000, 8192, 3), 0);
    assert_eq!(sys_unmap(&mut task, &mut pool, 0x1001, 8192), -1);
    assert_eq!(sys_unmap(&mut task, &mut pool, 0x1000, 4096), -1);
    assert_eq!(sys_unmap(&mut task, &mut pool, 0x2000, 4096), -1);
    assert_eq!(sys_unmap(&mut task, &mut pool, 0x9000, 4096), -1);
    assert_eq!(task.space.region_count(), 1);
    assert_eq!(pool.available(), 2);
    assert_eq!(sys_unmap(&mut task, &mut pool, 0x1000, 8192), 0);
    assert_eq!(task.space.region_count(), 0);
    assert_eq!(pool.available(), 4);
    assert_eq!(sys_unmap(&mut task, &mut pool, 0x1000, 8192), -1);
}

#[test]
fn map_write_read_remap_unmap() {
    let mut pool = FramePool::new(4);
    let mut task = running_task(0);
    assert_eq!(sys_mmap(&mut task, &mut pool, 0x1000, 4096, 3), 0);
    assert_eq!(task.space.store(0x1000, 0x5a), true);
    assert_eq!(task.space.load(0x1000), Some(0x5a));
    assert_eq!(task.space.store(0x1fff, 0xa5), true);
    assert_eq!(task.space.load(0x1fff), Some(0xa5));
    assert_eq!(sys_mmap(&mut task, &mut pool, 0x1000, 4096, 3), -1);
    assert_eq!(task.space.load(0x1000), Some(0x5a));
    assert_eq!(sys_unmap(&mut task, &mut pool, 0x1000, 4096), 0);
    assert_eq!(task.space.load(0x1000), None);
    assert_eq!(task.space.store(0x1000, 1), false);
    assert_eq!(task.space.fetch(0x1000), None);
    assert!(!task.space.check_access(0x1000, Access::Read));
    assert!(!task.space.check_access(0x1000, Access::Write));
    assert_eq!(pool.available(), 4);
}

#[test]
fn sys_yield_returns_zero_and_makes_the_task_ready() {
    let mut task = running_task(3);
    task.stats.record_syscall(SYSCALL_YIELD);
    assert_eq!(sys_yield(&mut task), 0);
    assert_eq!(task.stats.status, TaskStatus::Ready);
    assert_eq!(task.stats.count(SYSCALL_YIELD), Some(1));
    assert_eq!(task.stats.start_time, 3);
    assert_eq!(task.program_brk, HEAP_BOTTOM);
}

#[test]
fn sys_exit_ends_the_task() {
    let mut task = running_task(3);
    sys_exit(&mut task, 7);
    assert_eq!(task.stats.status, TaskStatus::Exited);
    assert!(!task.stats.status.may_become(TaskStatus::Ready));
    assert!(!task.stats.status.may_become(TaskStatus::Running));
    assert_eq!(task.stats.start_time, 3);
}

#[test]
fn sys_get_time_writes_seconds_and_microseconds() {
    let mut pool = FramePool::new(4);
    let mut task = running_task(0);
    assert_eq!(sys_mmap(&mut task, &mut pool, 0x1000, 4096, 3), 0);
    let now = 3 * TICKS_PER_SEC + TICKS_PER_SEC / 4;
    assert_eq!(sys_get_time(&mut task, now, 0x1800, 0), 0);
    assert_eq!(word_at(&task, 0x1800), 3);
    assert_eq!(word_at(&task, 0x1808), 250_000);
    assert_eq!(task.space.load(0x17ff), Some(0));
    assert_eq!(task.space.load(0x1810), Some(0));
}

#[test]
fn sys_get_time_ignores_the_time_zone() {
    let mut pool = FramePool::new(4);
    let mut task = running_task(0);
    assert_eq!(sys_mmap(&mut task, &mut pool, 0x1000, 4096, 3), 0);
    assert_eq!(sys_get_time(&mut task, 25, 0x1000, 0), 0);
    let first = task.space.copy_in(0x1000, 16);
    assert_eq!(sys_get_time(&mut task, 25, 0x1000, 0xdead_beef), 0);
    assert_eq!(task.space.copy_in(0x1000, 16), first);
    assert_eq!(word_at(&task, 0x1008), 2);
}

#[test]
fn sys_get_time_writes_across_a_page_boundary() {
    let mut pool = FramePool::new(4);
    let mut task = running_task(0);
    assert_eq!(sys_mmap(&mut task, &mut pool, 0x1000, 4096, 3), 0);
    assert_eq!(sys_mmap(&mut task, &mut pool, 0x2000, 4096, 3), 0);
    let now = 0x0102_0304 * TICKS_PER_SEC + 13;
    assert_eq!(sys_get_time(&mut task, now, 0x1ffb, 0), 0);
    assert_eq!(word_at(&task, 0x1ffb), 0x0102_0304);
    assert_eq!(word_at(&task, 0x2003), 1);
    assert_eq!(task.space.load(0x1ffb), Some(0x04));
    assert_eq!(task.space.load(0x1fff), Some(0));
    assert_eq!(task.space.load(0x2003), Some(1));
}

#[test]
fn sys_get_time_fails_for_an_unmapped_destination() {
    let mut pool = FramePool::new(4);
    let mut task = running_task(0);
    assert_eq!(sys_get_time(&mut task, 1_000, 0x1000, 0), -1);
    assert_eq!(sys_mmap(&mut task, &mut pool, 0x1000, 4096, 3), 0);
    assert_eq!(sys_get_time(&mut task, 12_500_000, 0x1ff1, 0), -1);
    assert_eq!(task.space.copy_in(0x1ff1, 15), Some(vec![0u8; 15]));
    assert_eq!(sys_get_time(&mut task, 12_500_000, 0x1ff0, 0), 0);
    assert_eq!(word_at(&task, 0x1ff0), 1);
}

#[test]
fn sys_task_info_writes_the_report() {
    let mut pool = FramePool::new(4);
    let mut task = running_task(2 * TICKS_PER_SEC);
    assert_eq!(sys_mmap(&mut task, &mut pool, 0x4000, 4096, 3), 0);
    task.stats.record_syscall(SYSCALL_GET_TIME);
    task.stats.record_syscall(SYSCALL_GET_TIME);
    task.stats.record_syscall(SYSCALL_TASK_INFO);
    let now = 7 * TICKS_PER_SEC + TICKS_PER_SEC / 2;
    assert_eq!(sys_task_info(&mut task, now, 0x4000), 0);
    let bytes = task.space.copy_in(0x4000, TASKINFO_BYTES).unwrap();
    assert_eq!(bytes[0], 2);
    assert_eq!(counter_at(&task, 0x4000, SYSCALL_GET_TIME), 2);
    assert_eq!(counter_at(&task, 0x4000, SYSCALL_TASK_INFO), 1);
    assert_eq!(counter_at(&task, 0x4000, SYSCALL_YIELD), 0);
    assert_eq!(counter_at(&task, 0x4000, MAX_SYSCALL_NUM - 1), 0);
    assert_eq!(word_at(&task, 0x4000 + TASKINFO_TIME_OFFSET), 5_500);
    assert_eq!(task.space.load(0x4000 + TASKINFO_BYTES), Some(0));
}

#[test]
fn sys_task_info_writes_across_a_page_boundary() {
    let mut pool = FramePool::new(4);
    let mut task = running_task(0);
    assert_eq!(sys_mmap(&mut task, &mut pool, 0x4000, 8192, 3), 0);
    task.stats.record_syscall(MAX_SYSCALL_NUM - 1);
    let ti = 0x5000 - 100;
    assert_eq!(sys_task_info(&mut task, 125_000, ti), 0);
    assert_eq!(counter_at(&task, ti, MAX_SYSCALL_NUM - 1), 1);
    assert_eq!(word_at(&task, ti + TASKINFO_TIME_OFFSET), 10);
    assert_eq!(task.space.load(ti), Some(2));
}

#[test]
fn sys_task_info_fails_for_an_unmapped_destination() {
    let mut pool = FramePool::new(4);
    let mut task = running_task(0);
    assert_eq!(sys_task_info(&mut task, 0, 0x4000), -1);
    assert_eq!(sys_mmap(&mut task, &mut pool, 0x4000, 4096, 3), 0);
    assert_eq!(sys_task_info(&mut task, 0, 0x4000 + 4096 - 2015), -1);
    assert_eq!(task.space.copy_in(0x4000, 4096), Some(vec![0u8; 4096]));
    assert_eq!(sys_task_info(&mut task, 0, 0x4000 + 4096 - 2016), 0);
}

#[test]
fn yields_are_counted_in_the_report() {
    for n in [0u32, 1, 2, 17] {
        let mut pool = FramePool::new(4);
        let mut task = running_task(0);
        assert_eq!(syscall(&mut task, &mut pool, 0, SYSCALL_MMAP, [0x4000, 4096, 3]), Some(0));
        for _ in 0..n {
            assert_eq!(syscall(&mut task, &mut pool, 10, SYSCALL_YIELD, [0, 0, 0]), Some(0));
            assert_eq!(task.stats.status, TaskStatus::Ready);
            task.stats.transition(TaskStatus::Running);
        }
        assert_eq!(syscall(&mut task, &mut pool, 20, SYSCALL_TASK_INFO, [0x4000, 0, 0]), Some(0));
        assert_eq!(counter_at(&task, 0x4000, SYSCALL_YIELD), n);
        assert_eq!(counter_at(&task, 0x4000, SYSCALL_TASK_INFO), 1);
        assert_eq!(counter_at(&task, 0x4000, SYSCALL_MMAP), 1);
        assert_eq!(counter_at(&task, 0x4000, SYSCALL_GET_TIME), 0);
        assert_eq!(task.space.load(0x4000), Some(2));
    }
}

#[test]
fn syscall_counts_failed_calls_too() {
    let mut pool = FramePool::new(4);
    let mut task = running_task(0);
    assert_eq!(syscall(&mut task, &mut pool, 0, SYSCALL_MMAP, [0x4001, 4096, 3]), Some(-1));
    assert_eq!(syscall(&mut task, &mut pool, 0, SYSCALL_MMAP, [0x4000, 4096, 0]), Some(-1));
    assert_eq!(syscall(&mut task, &mut pool, 0, SYSCALL_MUNMAP, [0x4000, 4096, 0]), Some(-1));
    assert_eq!(syscall(&mut task, &mut pool, 0, SYSCALL_GET_TIME, [0x4000, 0, 0]), Some(-1));
    assert_eq!(task.stats.count(SYSCALL_MMAP), Some(2));
    assert_eq!(task.stats.count(SYSCALL_MUNMAP), Some(1));
    assert_eq!(task.stats.count(SYSCALL_GET_TIME), Some(1));
    assert_eq!(task.space.region_count(), 0);
    assert_eq!(pool.available(), 4);
}

#[test]
fn syscall_serves_each_call() {
    let mut pool = FramePool::new(4);
    let mut task = running_task(0);
    assert_eq!(syscall(&mut task, &mut pool, 0, SYSCALL_MMAP, [0x4000, 8192, 3]), Some(0));
    assert_eq!(pool.available(), 2);
    assert_eq!(
        syscall(&mut task, &mut pool, 2 * TICKS_PER_SEC + 125, SYSCALL_GET_TIME, [0x4ffc, 0, 0]),
        Some(0)
    );
    assert_eq!(word_at(&task, 0x4ffc), 2);
    assert_eq!(word_at(&task, 0x5004), 10);
    assert_eq!(syscall(&mut task, &mut pool, 0, SYSCALL_BRK, [4096, 0, 0]), Some(HEAP_BOTTOM as isize));
    assert_eq!(task.program_brk, HEAP_BOTTOM + 4096);
    let back = (-4096i32) as u32 as usize;
    assert_eq!(
        syscall(&mut task, &mut pool, 0, SYSCALL_BRK, [back, 0, 0]),
        Some((HEAP_BOTTOM + 4096) as isize)
    );
    assert_eq!(task.program_brk, HEAP_BOTTOM);
    assert_eq!(syscall(&mut task, &mut pool, 0, SYSCALL_MUNMAP, [0x4000, 8192, 0]), Some(0));
    assert_eq!(pool.available(), 4);
    assert_eq!(syscall(&mut task, &mut pool, 0, SYSCALL_EXIT, [0, 0, 0]), None);
    assert_eq!(task.stats.status, TaskStatus::Exited);
    assert_eq!(task.stats.count(SYSCALL_EXIT), Some(1));
    assert_eq!(task.stats.count(SYSCALL_BRK), Some(2));
}

#[test]
fn seven_ids_are_served() {
    let known = [
        SYSCALL_EXIT,
        SYSCALL_YIELD,
        SYSCALL_GET_TIME,
        SYSCALL_BRK,
        SYSCALL_MUNMAP,
        SYSCALL_MMAP,
        SYSCALL_TASK_INFO,
    ];
    let mut served = 0;
    for id in 0..MAX_SYSCALL_NUM {
        assert_eq!(is_syscall(id), known.contains(&id));
        if is_syscall(id) {
            served += 1;
        }
    }
    assert_eq!(served, 7);
    assert!(!is_syscall(MAX_SYSCALL_NUM));
    assert!(!is_syscall(usize::MAX));
}

#[test]
fn sys_brk_returns_the_old_break() {
    let mut task = running_task(0);
    assert_eq!(sys_brk(&mut task, 0), HEAP_BOTTOM as isize);
    assert_eq!(sys_brk(&mut task, 100), HEAP_BOTTOM as isize);
    assert_eq!(task.program_brk, HEAP_BOTTOM + 100);
    assert_eq!(sys_brk(&mut task, 4096), (HEAP_BOTTOM + 100) as isize);
    assert_eq!(task.program_brk, HEAP_BOTTOM + 4196);
    assert_eq!(sys_brk(&mut task, -196), (HEAP_BOTTOM + 4196) as isize);
    assert_eq!(task.program_brk, HEAP_BOTTOM + 4000);
    assert_eq!(sys_brk(&mut task, -4000), (HEAP_BOTTOM + 4000) as isize);
    assert_eq!(task.program_brk, HEAP_BOTTOM);
    assert_eq!(task.heap_bottom, HEAP_BOTTOM);
}

#[test]
fn sys_brk_refuses_a_break_below_the_heap() {
    let mut task = running_task(0);
    assert_eq!(sys_brk(&mut task, -1), -1);
    assert_eq!(task.program_brk, HEAP_BOTTOM);
    assert_eq!(sys_brk(&mut task, 10), HEAP_BOTTOM as isize);
    assert_eq!(sys_brk(&mut task, -11), -1);
    assert_eq!(sys_brk(&mut task, i32::MIN), -1);
    assert_eq!(task.program_brk, HEAP_BOTTOM + 10);
}

#[test]
fn sys_brk_refuses_a_break_that_cannot_be_reported() {
    let top = isize::MAX as usize;
    let mut task = Task::new(0, top - 5);
    assert_eq!(sys_brk(&mut task, 6), -1);
    assert_eq!(task.program_brk, top - 5);
    assert_eq!(sys_brk(&mut task, 5), (top - 5) as isize);
    assert_eq!(task.program_brk, top);
    assert_eq!(sys_brk(&mut task, 1), -1);
    assert_eq!(sys_brk(&mut task, i32::MAX), -1);
    assert_eq!(sys_brk(&mut task, 0), top as isize);
}
