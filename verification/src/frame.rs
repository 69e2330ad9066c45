//! Physical frames and the pool that lends them out. A frame is one page of
//! bytes; whoever holds the `Frame` value holds the memory. Frames come into
//! being only with a pool, so none can be had but from a pool.

use vstd::prelude::*;
use crate::config::PAGE_SIZE;

verus! {

/// One page of physical memory.
pub struct Frame {
    bytes: [u8; PAGE_SIZE],
}

impl View for Frame {
    type V = Seq<u8>;

    closed spec fn view(&self) -> Seq<u8> {
        self.bytes@
    }
}

impl Frame {
    /// Every byte of the frame is zero.
    pub open spec fn is_zeroed(&self) -> bool {
        forall|k: int| 0 <= k < PAGE_SIZE ==> self@[k] == 0u8
    }

    /// A frame holds exactly one page of bytes.
    pub proof fn lemma_page_sized(&self)
        ensures
            self@.len() == PAGE_SIZE,
    {
    }

    /// A frame filled with zero bytes.
    fn zeroed() -> (f: Frame)
        ensures
            f.is_zeroed(),
    {
        Frame { bytes: [0u8; PAGE_SIZE] }
    }

    /// The byte at `offset` in the frame.
    pub fn read(&self, offset: usize) -> (byte: u8)
        requires
            offset < PAGE_SIZE,
        ensures
            byte == self@[offset as int],
    {
        self.bytes[offset]
    }

    /// Puts `value` at `offset` in the frame.
    pub fn write(&mut self, offset: usize, value: u8)
        requires
            offset < PAGE_SIZE,
        ensures
            final(self)@ == old(self)@.update(offset as int, value),
    {
        self.bytes[offset] = value;
    }
}

/// The pool of free frames, the one piece of state that tasks share. Frames
/// leave it zero-filled and are wiped when they come back.
pub struct FramePool {
    free: Vec<Frame>,
}

impl FramePool {
    /// Well-formedness: every free frame is zero-filled.
    pub closed spec fn wf(&self) -> bool {
        forall|i: int| 0 <= i < self.free@.len() ==> (#[trigger] self.free@[i]).is_zeroed()
    }

    /// Number of frames that can still be handed out.
    pub closed spec fn spec_available(&self) -> nat {
        self.free@.len()
    }

    /// A pool that holds `frames` free frames.
    pub fn new(frames: usize) -> (pool: FramePool)
        ensures
            pool.wf(),
            pool.spec_available() == frames,
    {
        let mut free: Vec<Frame> = Vec::new();
        let mut i: usize = 0;
        while i < frames
            invariant
                i <= frames,
                free@.len() == i,
                forall|j: int| 0 <= j < free@.len() ==> (#[trigger] free@[j]).is_zeroed(),
            decreases frames - i,
        {
            free.push(Frame::zeroed());
            i = i + 1;
        }
        FramePool { free }
    }

    /// Number of frames that can still be handed out.
    pub fn available(&self) -> (n: usize)
        ensures
            n == self.spec_available(),
    {
        self.free.len()
    }

    /// Takes one frame out of the pool, or `None` when the pool is empty.
    pub fn acquire(&mut self) -> (frame: Option<Frame>)
        requires
            old(self).wf(),
        ensures
            final(self).wf(),
            frame.is_some() == (old(self).spec_available() > 0),
            frame.is_some() ==> frame.unwrap().is_zeroed() && final(self).spec_available()
                == old(self).spec_available() - 1,
            frame.is_none() ==> final(self).spec_available() == old(self).spec_available(),
    {
        self.free.pop()
    }

    /// Gives a frame back to the pool. Its contents are wiped.
    pub fn release(&mut self, frame: Frame)
        requires
            old(self).wf(),
        ensures
            final(self).wf(),
            final(self).spec_available() == old(self).spec_available() + 1,
    {
        let mut frame = frame;
        frame.bytes = [0u8; PAGE_SIZE];
        self.free.push(frame);
    }
}

} // verus!
