//! The kernel's record of one task. Every system call names the task it acts
//! for; nothing here depends on which task happens to be running.

use vstd::prelude::*;
use crate::model::SpaceView;
use crate::space::AddressSpace;
use crate::telemetry::TaskSnapshot;

verus! {

/// One task: its telemetry, its address space and its program break.
pub struct Task {
    /// Status, syscall counters and start time.
    pub stats: TaskSnapshot,
    /// The mapped regions and the memory behind them.
    pub space: AddressSpace,
    /// Lowest address that the program break may take.
    pub heap_bottom: usize,
    /// The current program break.
    pub program_brk: usize,
}

impl Task {
    /// Well-formedness: the address space is well-formed, and the program break
    /// lies at or above the heap bottom and can be reported as a non-negative `isize`.
    pub open spec fn wf(&self) -> bool {
        &&& self.space.wf()
        &&& self.heap_bottom <= self.program_brk <= isize::MAX
    }

    /// A task created at timer reading `start_time`, with nothing mapped and an
    /// empty heap at `heap_bottom`.
    pub fn new(start_time: u64, heap_bottom: usize) -> (task: Task)
        requires
            heap_bottom <= isize::MAX,
        ensures
            task.wf(),
            task.stats == TaskSnapshot::spec_new(start_time),
            task.space@ == SpaceView::empty(),
            task.heap_bottom == heap_bottom,
            task.program_brk == heap_bottom,
    {
        Task {
            stats: TaskSnapshot::new(start_time),
            space: AddressSpace::new(),
            heap_bottom,
            program_brk: heap_bottom,
        }
    }
}

} // verus!
