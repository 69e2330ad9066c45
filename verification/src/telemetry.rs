//! Per-task telemetry: the life-cycle status, one counter per system call and the
//! start time of a task, and the report that `task_info` hands to user code.

use vstd::prelude::*;
use vstd::bytes::{
    lemma_auto_spec_u32_to_from_le_bytes, lemma_auto_spec_u64_to_from_le_bytes,
    spec_u32_from_le_bytes, spec_u32_to_le_bytes, spec_u64_to_le_bytes, u32_to_le_bytes,
    u64_to_le_bytes,
};
use crate::config::MAX_SYSCALL_NUM;
use crate::timer::{elapsed_ms, spec_ms_clock, spec_ticks_to_us, ticks_to_us};

verus! {

/// Number of bytes that a [`TaskInfo`] occupies in user memory.
pub const TASKINFO_BYTES: usize = 2016;

/// Offset of the counter table inside a serialised [`TaskInfo`].
pub const TASKINFO_COUNTS_OFFSET: usize = 4;

/// Offset of the elapsed time inside a serialised [`TaskInfo`].
pub const TASKINFO_TIME_OFFSET: usize = 2008;

/// Where a task stands in its life cycle.
#[derive(Clone, Copy, Debug, PartialEq, Eq, Structural)]
pub enum TaskStatus {
    UnInit,
    Ready,
    Running,
    Exited,
}

impl TaskStatus {
    /// The moves that the scheduler may make: a fresh task becomes ready, a ready
    /// task is run, a running task is suspended or exits. Nothing leaves `Exited`.
    pub open spec fn can_become(self, next: TaskStatus) -> bool {
        match (self, next) {
            (TaskStatus::UnInit, TaskStatus::Ready) => true,
            (TaskStatus::Ready, TaskStatus::Running) => true,
            (TaskStatus::Running, TaskStatus::Ready) => true,
            (TaskStatus::Running, TaskStatus::Exited) => true,
            _ => false,
        }
    }

    /// Runtime form of [`TaskStatus::can_become`].
    pub fn may_become(self, next: TaskStatus) -> (ok: bool)
        ensures
            ok == self.can_become(next),
    {
        match (self, next) {
            (TaskStatus::UnInit, TaskStatus::Ready) => true,
            (TaskStatus::Ready, TaskStatus::Running) => true,
            (TaskStatus::Running, TaskStatus::Ready) => true,
            (TaskStatus::Running, TaskStatus::Exited) => true,
            _ => false,
        }
    }

    /// The byte that stands for the status in user memory.
    pub open spec fn spec_code(self) -> u8 {
        match self {
            TaskStatus::UnInit => 0,
            TaskStatus::Ready => 1,
            TaskStatus::Running => 2,
            TaskStatus::Exited => 3,
        }
    }

    /// Runtime form of [`TaskStatus::spec_code`].
    pub fn code(self) -> (c: u8)
        ensures
            c == self.spec_code(),
    {
        match self {
            TaskStatus::UnInit => 0,
            TaskStatus::Ready => 1,
            TaskStatus::Running => 2,
            TaskStatus::Exited => 3,
        }
    }
}

/// The counter table after one more call of `id` has been recorded.
pub open spec fn counts_after_record(counts: Seq<u32>, id: int) -> Seq<u32> {
    counts.update(id, (counts[id] + 1) as u32)
}

/// The counter table after `n` more calls of `id` have been recorded.
pub open spec fn counts_after_records(counts: Seq<u32>, id: int, n: nat) -> Seq<u32>
    decreases n,
{
    if n == 0 {
        counts
    } else {
        counts_after_record(counts_after_records(counts, id, (n - 1) as nat), id)
    }
}

/// Counting a call raises its counter by one and leaves every other counter alone.
pub proof fn lemma_record_counts_one(counts: Seq<u32>, id: int, other: int)
    requires
        0 <= id < counts.len(),
        0 <= other < counts.len(),
        counts[id] < u32::MAX,
    ensures
        counts_after_record(counts, id).len() == counts.len(),
        counts_after_record(counts, id)[id] == counts[id] + 1,
        other != id ==> counts_after_record(counts, id)[other] == counts[other],
{
}

/// Counting `n` calls of `id` raises its counter by `n`, as long as the counter
/// has room for them, and leaves every other counter alone.
pub proof fn lemma_records_count_all(counts: Seq<u32>, id: int, n: nat, other: int)
    requires
        0 <= id < counts.len(),
        0 <= other < counts.len(),
        counts[id] + n <= u32::MAX,
    ensures
        counts_after_records(counts, id, n).len() == counts.len(),
        counts_after_records(counts, id, n)[id] == counts[id] + n,
        other != id ==> counts_after_records(counts, id, n)[other] == counts[other],
    decreases n,
{
    if n > 0 {
        lemma_records_count_all(counts, id, (n - 1) as nat, other);
        lemma_record_counts_one(counts_after_records(counts, id, (n - 1) as nat), id, other);
    }
}

/// The telemetry record of one task. Only the task itself, while it runs, adds to
/// the counters; the scheduler alone moves the status.
#[derive(Clone, Copy, Debug)]
pub struct TaskSnapshot {
    pub status: TaskStatus,
    pub syscall_counts: [u32; MAX_SYSCALL_NUM],
    /// Timer reading, in ticks, taken when the task was created.
    pub start_time: u64,
}

impl TaskSnapshot {
    /// The record of a task created at `start_time`: not yet initialised, no call counted.
    pub open spec fn spec_new(start_time: u64) -> TaskSnapshot {
        TaskSnapshot {
            status: TaskStatus::UnInit,
            syscall_counts: [0u32; MAX_SYSCALL_NUM],
            start_time,
        }
    }

    /// The record of a task created at `start_time`: not yet initialised, no call counted.
    pub fn new(start_time: u64) -> (s: Self)
        ensures
            s == Self::spec_new(start_time),
            s.status == TaskStatus::UnInit,
            s.start_time == start_time,
            forall|id: int| 0 <= id < MAX_SYSCALL_NUM ==> s.syscall_counts[id] == 0,
    {
        TaskSnapshot {
            status: TaskStatus::UnInit,
            syscall_counts: [0u32; MAX_SYSCALL_NUM],
            start_time,
        }
    }

    /// The number of calls of `id` counted so far.
    pub open spec fn spec_count(self, id: int) -> int {
        self.syscall_counts[id] as int
    }

    /// The record with another status.
    pub open spec fn spec_with_status(self, status: TaskStatus) -> TaskSnapshot {
        TaskSnapshot { status, syscall_counts: self.syscall_counts, start_time: self.start_time }
    }

    /// Counts one call of system call `id`.
    pub fn record_syscall(&mut self, id: usize)
        requires
            id < MAX_SYSCALL_NUM,
            old(self).syscall_counts[id as int] < u32::MAX,
        ensures
            final(self).syscall_counts@ == counts_after_record(
                old(self).syscall_counts@,
                id as int,
            ),
            final(self).syscall_counts[id as int] == old(self).syscall_counts[id as int] + 1,
            final(self).status == old(self).status,
            final(self).start_time == old(self).start_time,
    {
        self.syscall_counts[id] = self.syscall_counts[id] + 1;
    }

    /// How often system call `id` was counted; `None` for an id outside the table.
    pub fn count(&self, id: usize) -> (n: Option<u32>)
        ensures
            n == if id < MAX_SYSCALL_NUM {
                Some(self.syscall_counts[id as int])
            } else {
                None
            },
    {
        if id < MAX_SYSCALL_NUM {
            Some(self.syscall_counts[id])
        } else {
            None
        }
    }

    /// A copy of the record as it stands now.
    pub fn snapshot(&self) -> (copy: TaskSnapshot)
        ensures
            copy == *self,
    {
        TaskSnapshot {
            status: self.status,
            syscall_counts: self.syscall_counts,
            start_time: self.start_time,
        }
    }

    /// Moves the status along one edge of the life cycle.
    pub fn transition(&mut self, next: TaskStatus)
        requires
            old(self).status.can_become(next),
        ensures
            *final(self) == old(self).spec_with_status(next),
    {
        self.status = next;
    }

    /// The report on the task at timer reading `now_ticks`.
    pub open spec fn spec_report(self, now_ticks: u64) -> TaskInfo {
        TaskInfo {
            status: self.status,
            syscall_times: self.syscall_counts,
            time: (spec_ms_clock(spec_ticks_to_us(now_ticks) as u64) - spec_ms_clock(
                spec_ticks_to_us(self.start_time) as u64,
            )) as i64,
        }
    }

    /// Builds the report that `task_info` delivers: the status, a copy of the
    /// counters, and the milliseconds on the truncated clock since the task's start.
    pub fn report(&self, now_ticks: u64) -> (info: TaskInfo)
        ensures
            info == self.spec_report(now_ticks),
            info.status == self.status,
            info.syscall_times == self.syscall_counts,
            info.time as int == spec_ms_clock(spec_ticks_to_us(now_ticks) as u64) - spec_ms_clock(
                spec_ticks_to_us(self.start_time) as u64,
            ),
    {
        let now_us = ticks_to_us(now_ticks);
        let start_us = ticks_to_us(self.start_time);
        TaskInfo {
            status: self.status,
            syscall_times: self.syscall_counts,
            time: elapsed_ms(start_us, now_us),
        }
    }
}

/// What `task_info` reports about a task.
#[derive(Clone, Copy, Debug)]
pub struct TaskInfo {
    /// Status of the task in its life cycle.
    pub status: TaskStatus,
    /// How often the task made each system call.
    pub syscall_times: [u32; MAX_SYSCALL_NUM],
    /// Milliseconds on the truncated clock since the task's start.
    pub time: i64,
}

/// The counters as bytes: four little-endian bytes for each, in table order.
pub open spec fn spec_counts_bytes(counts: Seq<u32>) -> Seq<u8>
    decreases counts.len(),
{
    if counts.len() == 0 {
        Seq::<u8>::empty()
    } else {
        spec_counts_bytes(counts.drop_last()) + spec_u32_to_le_bytes(counts.last())
    }
}

/// The 64-bit pattern of a signed value in two's complement.
pub open spec fn spec_twos_complement(x: i64) -> u64 {
    if x >= 0 {
        x as u64
    } else {
        (x + 0x1_0000_0000_0000_0000) as u64
    }
}

/// Computes [`spec_twos_complement`].
pub fn twos_complement(x: i64) -> (bits: u64)
    ensures
        bits == spec_twos_complement(x),
{
    if x >= 0 {
        x as u64
    } else {
        u64::MAX - ((-(x + 1)) as u64)
    }
}

/// The counter bytes take four bytes per counter.
pub proof fn lemma_counts_bytes_len(counts: Seq<u32>)
    ensures
        spec_counts_bytes(counts).len() == 4 * counts.len(),
    decreases counts.len(),
{
    lemma_auto_spec_u32_to_from_le_bytes();
    if counts.len() > 0 {
        lemma_counts_bytes_len(counts.drop_last());
    }
}

/// The four bytes of counter `id` stand at four times `id` in the counter bytes.
pub proof fn lemma_counts_bytes_at(counts: Seq<u32>, id: int)
    requires
        0 <= id < counts.len(),
    ensures
        spec_counts_bytes(counts).subrange(4 * id, 4 * id + 4) == spec_u32_to_le_bytes(
            counts[id],
        ),
    decreases counts.len(),
{
    lemma_auto_spec_u32_to_from_le_bytes();
    let front = counts.drop_last();
    lemma_counts_bytes_len(front);
    if id < front.len() {
        lemma_counts_bytes_at(front, id);
    }
}

impl TaskInfo {
    /// The report as laid out in user memory: the status byte and three bytes of
    /// padding, the counter table, four bytes of padding, and the elapsed time as
    /// eight little-endian bytes in two's complement.
    pub open spec fn spec_bytes(self) -> Seq<u8> {
        seq![self.status.spec_code(), 0u8, 0u8, 0u8] + spec_counts_bytes(self.syscall_times@)
            + seq![0u8, 0u8, 0u8, 0u8] + spec_u64_to_le_bytes(spec_twos_complement(self.time))
    }

    /// Where each field lies in the serialised report: the status code in the
    /// first byte, counter `id` in the four bytes from `4 + 4 * id`, to be read
    /// back as a little-endian number, and the elapsed time in the last eight
    /// bytes.
    pub proof fn lemma_layout(self, id: int)
        requires
            0 <= id < MAX_SYSCALL_NUM,
        ensures
            self.spec_bytes().len() == TASKINFO_BYTES,
            self.spec_bytes()[0] == self.status.spec_code(),
            self.spec_bytes().subrange(
                TASKINFO_COUNTS_OFFSET + 4 * id,
                TASKINFO_COUNTS_OFFSET + 4 * id + 4,
            ) == spec_u32_to_le_bytes(self.syscall_times[id]),
            spec_u32_from_le_bytes(
                self.spec_bytes().subrange(
                    TASKINFO_COUNTS_OFFSET + 4 * id,
                    TASKINFO_COUNTS_OFFSET + 4 * id + 4,
                ),
            ) == self.syscall_times[id],
            self.spec_bytes().subrange(TASKINFO_TIME_OFFSET as int, TASKINFO_BYTES as int)
                == spec_u64_to_le_bytes(spec_twos_complement(self.time)),
    {
        lemma_auto_spec_u32_to_from_le_bytes();
        lemma_auto_spec_u64_to_from_le_bytes();
        lemma_counts_bytes_len(self.syscall_times@);
        lemma_counts_bytes_at(self.syscall_times@, id);
        assert(self.spec_bytes().subrange(4 + 4 * id, 4 + 4 * id + 4) =~= spec_counts_bytes(
            self.syscall_times@,
        ).subrange(4 * id, 4 * id + 4));
    }

    /// Serialises the report for a copy into user memory.
    pub fn to_bytes(&self) -> (out: Vec<u8>)
        ensures
            out@ == self.spec_bytes(),
            out@.len() == TASKINFO_BYTES,
    {
        let mut out: Vec<u8> = Vec::new();
        out.push(self.status.code());
        out.push(0);
        out.push(0);
        out.push(0);
        let ghost head = seq![self.status.spec_code(), 0u8, 0u8, 0u8];
        let mut i: usize = 0;
        while i < MAX_SYSCALL_NUM
            invariant
                i <= MAX_SYSCALL_NUM,
                head.len() == 4,
                out@ == head + spec_counts_bytes(self.syscall_times@.take(i as int)),
            decreases MAX_SYSCALL_NUM - i,
        {
            let mut word = u32_to_le_bytes(self.syscall_times[i]);
            proof {
                assert(self.syscall_times@.take(i + 1).drop_last() =~= self.syscall_times@.take(
                    i as int,
                ));
            }
            out.append(&mut word);
            i = i + 1;
        }
        proof {
            assert(self.syscall_times@.take(MAX_SYSCALL_NUM as int) =~= self.syscall_times@);
            lemma_counts_bytes_len(self.syscall_times@);
            lemma_auto_spec_u64_to_from_le_bytes();
        }
        out.push(0);
        out.push(0);
        out.push(0);
        out.push(0);
        let mut tail = u64_to_le_bytes(twos_complement(self.time));
        out.append(&mut tail);
        out
    }
}

} // verus!
