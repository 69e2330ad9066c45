use task_syscalls::config::{MAX_SYSCALL_NUM, SYSCALL_GET_TIME, SYSCALL_YIELD};
use task_syscalls::telemetry::{
    twos_complement, TaskInfo, TaskSnapshot, TaskStatus, TASKINFO_BYTES, TASKINFO_COUNTS_OFFSET,
    TASKINFO_TIME_OFFSET,
};

#[test]
fn a_new_record_is_uninitialised_and_empty() {
    let stats = TaskSnapshot::new(77);
    assert_eq!(stats.status, TaskStatus::UnInit);
    assert_eq!(stats.start_time, 77);
    assert!(stats.syscall_counts.iter().all(|c| *c == 0));
    assert_eq!(stats.syscall_counts.len(), MAX_SYSCALL_NUM);
}

#[test]
fn record_syscall_raises_one_counter_by_one() {
    let mut stats = TaskSnapshot::new(0);
    stats.record_syscall(SYSCALL_YIELD);
    stats.record_syscall(SYSCALL_YIELD);
    stats.record_syscall(SYSCALL_GET_TIME);
    stats.record_syscall(0);
    stats.record_syscall(MAX_SYSCALL_NUM - 1);
    assert_eq!(stats.count(SYSCALL_YIELD), Some(2));
    assert_eq!(stats.count(SYSCALL_GET_TIME), Some(1));
    assert_eq!(stats.count(0), Some(1));
    assert_eq!(stats.count(MAX_SYSCALL_NUM - 1), Some(1));
    let total: u32 = stats.syscall_counts.iter().sum();
    assert_eq!(total, 5);
    assert_eq!(stats.status, TaskStatus::UnInit);
    assert_eq!(stats.start_time, 0);
}

#[test]
fn count_knows_no_id_outside_the_table() {
    let stats = TaskSnapshot::new(0);
    assert_eq!(stats.count(MAX_SYSCALL_NUM), None);
    assert_eq!(stats.count(usize::MAX), None);
    assert_eq!(stats.count(MAX_SYSCALL_NUM - 1), Some(0));
}

#[test]
fn snapshot_is_a_copy_that_later_calls_do_not_change() {
    let mut stats = TaskSnapshot::new(5);
    stats.record_syscall(SYSCALL_YIELD);
    let copy = stats.snapshot();
    stats.record_syscall(SYSCALL_YIELD);
    stats.transition(TaskStatus::Ready);
    assert_eq!(copy.count(SYSCALL_YIELD), Some(1));
    assert_eq!(copy.status, TaskStatus::UnInit);
    assert_eq!(copy.start_time, 5);
    assert_eq!(stats.count(SYSCALL_YIELD), Some(2));
    assert_eq!(stats.status, TaskStatus::Ready);
}

#[test]
fn the_life_cycle_has_four_moves() {
    let all = [TaskStatus::UnInit, TaskStatus::Ready, TaskStatus::Running, TaskStatus::Exited];
    let mut legal = 0;
    for from in all {
        for to in all {
            let expected = matches!(
                (from, to),
                (TaskStatus::UnInit, TaskStatus::Ready)
                    | (TaskStatus::Ready, TaskStatus::Running)
                    | (TaskStatus::Running, TaskStatus::Ready)
                    | (TaskStatus::Running, TaskStatus::Exited)
            );
            assert_eq!(from.may_become(to), expected);
            if expected {
                legal += 1;
            }
        }
    }
    assert_eq!(legal, 4);
    for to in all {
        assert!(!TaskStatus::Exited.may_become(to));
    }
}

#[test]
fn transition_changes_only_the_status() {
    let mut stats = TaskSnapshot::new(9);
    stats.record_syscall(3);
    stats.transition(TaskStatus::Ready);
    stats.transition(TaskStatus::Running);
    assert_eq!(stats.status, TaskStatus::Running);
    assert_eq!(stats.count(3), Some(1));
    assert_eq!(stats.start_time, 9);
    stats.transition(TaskStatus::Exited);
    assert_eq!(stats.status, TaskStatus::Exited);
}

#[test]
fn status_codes_are_zero_to_three() {
    assert_eq!(TaskStatus::UnInit.code(), 0);
    assert_eq!(TaskStatus::Ready.code(), 1);
    assert_eq!(TaskStatus::Running.code(), 2);
    assert_eq!(TaskStatus::Exited.code(), 3);
}

#[test]
fn report_copies_the_record_and_measures_the_time() {
    let mut stats = TaskSnapshot::new(12_500_000);
    stats.transition(TaskStatus::Ready);
    stats.transition(TaskStatus::Running);
    stats.record_syscall(SYSCALL_YIELD);
    let info = stats.report(12_500_000 * 4 + 6_250_000);
    assert_eq!(info.status, TaskStatus::Running);
    assert_eq!(info.syscall_times[SYSCALL_YIELD], 1);
    assert_eq!(info.syscall_times, stats.syscall_counts);
    assert_eq!(info.time, 3_500);
}

#[test]
fn report_keeps_the_truncated_clock_as_it_is() {
    let start_ticks: u64 = 65_535 * 12_500_000;
    let now_ticks: u64 = 65_536 * 12_500_000;
    let stats = TaskSnapshot::new(start_ticks);
    let info = stats.report(now_ticks);
    assert_eq!(info.time, -65_535_000);
}

#[test]
fn twos_complement_is_the_bit_pattern() {
    assert_eq!(twos_complement(0), 0);
    assert_eq!(twos_complement(1), 1);
    assert_eq!(twos_complement(i64::MAX), i64::MAX as u64);
    assert_eq!(twos_complement(-1), u64::MAX);
    assert_eq!(twos_complement(-65_535_000), (-65_535_000i64) as u64);
    assert_eq!(twos_complement(i64::MIN), 1u64 << 63);
}

#[test]
fn task_info_bytes_follow_the_layout() {
    let mut counts = [0u32; MAX_SYSCALL_NUM];
    counts[0] = 0x0403_0201;
    counts[SYSCALL_YIELD] = 7;
    counts[MAX_SYSCALL_NUM - 1] = u32::MAX;
    let info = TaskInfo { status: TaskStatus::Running, syscall_times: counts, time: 1_234 };
    let bytes = info.to_bytes();
    assert_eq!(bytes.len(), TASKINFO_BYTES);
    assert_eq!(&bytes[0..4], &[2, 0, 0, 0]);
    assert_eq!(&bytes[4..8], &[1, 2, 3, 4]);
    let at = TASKINFO_COUNTS_OFFSET + 4 * SYSCALL_YIELD;
    assert_eq!(&bytes[at..at + 4], &7u32.to_le_bytes());
    let last = TASKINFO_COUNTS_OFFSET + 4 * (MAX_SYSCALL_NUM - 1);
    assert_eq!(&bytes[last..last + 4], &[0xff, 0xff, 0xff, 0xff]);
    assert_eq!(&bytes[2004..2008], &[0, 0, 0, 0]);
    assert_eq!(&bytes[TASKINFO_TIME_OFFSET..TASKINFO_BYTES], &1_234i64.to_le_bytes());
    let untouched = bytes[8..at].iter().all(|b| *b == 0);
    assert!(untouched);
}

#[test]
fn task_info_bytes_carry_a_negative_time_in_twos_complement() {
    let info = TaskInfo {
        status: TaskStatus::Exited,
        syscall_times: [0u32; MAX_SYSCALL_NUM],
        time: -65_535_000,
    };
    let bytes = info.to_bytes();
    assert_eq!(bytes[0], 3);
    assert_eq!(&bytes[TASKINFO_TIME_OFFSET..TASKINFO_BYTES], &(-65_535_000i64).to_le_bytes());
}
