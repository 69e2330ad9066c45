//! The address space of one task: its mapped regions, kept sorted, each backed
//! by frames from the pool.

use vstd::prelude::*;
use crate::config::PAGE_SIZE;
use crate::frame::{Frame, FramePool};
use crate::perm::{encode, lemma_encode_permits, spec_encode, valid_mask, Access, PageFlags};
use crate::model::SpaceView;
use crate::region::{
    insert_slot, lemma_exact_unique, lemma_insert_keeps_wf, lemma_insert_slot_is,
    lemma_lookup_after_insert, lemma_lookup_after_remove, lemma_mapped_in_range,
    lemma_region_unique, lemma_remove_keeps_wf, max_pages, page_mapped, region_index,
    span_overlaps, spec_pages_for, MapError, MemoryRegion,
};

verus! {

/// A region together with what backs it: the page flags it was installed with
/// and one frame for each of its pages.
struct MappedArea {
    region: MemoryRegion,
    flags: PageFlags,
    frames: Vec<Frame>,
}

/// The mapped regions of one task.
pub struct AddressSpace {
    areas: Vec<MappedArea>,
}

/// Number of pages needed to hold `len` bytes.
pub fn pages_for(len: usize) -> (pages: usize)
    ensures
        pages as int == spec_pages_for(len as int),
        pages <= max_pages(),
        (pages == 0) == (len == 0),
{
    if len % PAGE_SIZE == 0 {
        len / PAGE_SIZE
    } else {
        len / PAGE_SIZE + 1
    }
}

impl View for AddressSpace {
    type V = SpaceView;

    closed spec fn view(&self) -> SpaceView {
        SpaceView {
            regions: self.spec_regions(),
            mem: Map::new(
                |a: int| page_mapped(self.spec_regions(), a / 4096),
                |a: int| self.spec_byte(a),
            ),
        }
    }
}

impl AddressSpace {
    /// The region records, in list order.
    closed spec fn spec_regions(&self) -> Seq<MemoryRegion> {
        Seq::new(self.areas@.len(), |i: int| self.areas@[i].region)
    }

    /// The byte that backs address `a`, where it is mapped.
    closed spec fn spec_byte(&self, a: int) -> u8 {
        let i = region_index(self.spec_regions(), a / 4096);
        self.areas@[i].frames@[a / 4096 - self.areas@[i].region.start_page]@[a % 4096]
    }

    /// Every region has one frame for each of its pages, and the page flags that
    /// its permission mask encodes to.
    pub closed spec fn backed(&self) -> bool {
        forall|i: int|
            0 <= i < self.areas@.len() ==> {
                &&& (#[trigger] self.areas@[i]).frames@.len() == self.areas@[i].region.page_count
                &&& self.areas@[i].flags == spec_encode(self.areas@[i].region.permissions)
            }
    }

    /// Well-formedness: the abstract state is well-formed, and every region is backed.
    pub open spec fn wf(&self) -> bool {
        &&& self@.wf()
        &&& self.backed()
    }

    /// An address space with nothing mapped.
    pub fn new() -> (space: AddressSpace)
        ensures
            space.wf(),
            space@ == SpaceView::empty(),
    {
        let space = AddressSpace { areas: Vec::new() };
        assert(space@.regions =~= Seq::<MemoryRegion>::empty());
        assert(space@.mem =~= Map::<int, u8>::empty());
        space
    }

    /// Number of mapped regions.
    pub fn region_count(&self) -> (n: usize)
        ensures
            n == self@.regions.len(),
    {
        self.areas.len()
    }

    /// The `i`-th region in ascending order, or `None` past the end of the list.
    pub fn region(&self, i: usize) -> (r: Option<MemoryRegion>)
        ensures
            r == if i < self@.regions.len() {
                Some(self@.regions[i as int])
            } else {
                None
            },
    {
        if i < self.areas.len() {
            Some(self.areas[i].region)
        } else {
            None
        }
    }

    /// Finds the area that holds page `page`.
    fn find_area(&self, page: usize) -> (found: Option<usize>)
        requires
            self.wf(),
        ensures
            found.is_some() == page_mapped(self@.regions, page as int),
            found.is_some() ==> {
                &&& found.unwrap() < self.areas@.len()
                &&& found.unwrap() == region_index(self@.regions, page as int)
                &&& self@.regions[found.unwrap() as int].contains_page(page as int)
            },
    {
        let mut i: usize = 0;
        while i < self.areas.len()
            invariant
                self.wf(),
                i <= self.areas@.len(),
                forall|j: int|
                    0 <= j < i ==> !(#[trigger] self@.regions[j]).contains_page(page as int),
            decreases self.areas@.len() - i,
        {
            let r = self.areas[i].region;
            if r.start_page <= page && page - r.start_page < r.page_count {
                proof {
                    lemma_region_unique(self@.regions, page as int, i as int);
                }
                return Some(i);
            }
            i = i + 1;
        }
        None
    }

    /// The byte that backs a mapped address is the one in the frame of its page.
    proof fn lemma_byte_in_area(&self, a: int, i: int)
        requires
            self.wf(),
            0 <= i < self.areas@.len(),
            self.areas@[i].region.contains_page(a / 4096),
        ensures
            self@.mapped(a),
            self@.mem.dom().contains(a),
            region_index(self@.regions, a / 4096) == i,
            self@.mem[a] == self.areas@[i].frames@[a / 4096
                - self.areas@[i].region.start_page]@[a % 4096],
    {
        lemma_region_unique(self@.regions, a / 4096, i);
    }

    /// Reads the byte at `addr` for an access of the given kind.
    fn peek(&self, addr: usize, access: Access) -> (byte: Option<u8>)
        requires
            self.wf(),
        ensures
            byte == if self@.allows(addr as int, access) {
                Some(self@.mem[addr as int])
            } else {
                None
            },
    {
        let page = addr / PAGE_SIZE;
        match self.find_area(page) {
            None => None,
            Some(i) => {
                let area = &self.areas[i];
                proof {
                    self.lemma_byte_in_area(addr as int, i as int);
                    lemma_encode_permits(area.region.permissions);
                }
                if area.flags.allows(access) {
                    Some(area.frames[page - area.region.start_page].read(addr % PAGE_SIZE))
                } else {
                    None
                }
            },
        }
    }

    /// The page flags installed for the page of `addr`: those that the region's
    /// permission mask encodes to, or `None` where nothing is mapped.
    pub fn flags_at(&self, addr: usize) -> (flags: Option<PageFlags>)
        requires
            self.wf(),
        ensures
            flags == if self@.mapped(addr as int) {
                Some(spec_encode(self@.region_at(addr as int).permissions))
            } else {
                None
            },
    {
        match self.find_area(addr / PAGE_SIZE) {
            None => None,
            Some(i) => Some(self.areas[i].flags),
        }
    }

    /// Whether user code may touch address `addr` in the given way.
    pub fn check_access(&self, addr: usize, access: Access) -> (ok: bool)
        requires
            self.wf(),
        ensures
            ok == self@.allows(addr as int, access),
    {
        self.peek(addr, access).is_some()
    }

    /// A user-mode read of one byte: the byte at `addr` if the address is mapped
    /// readable, else `None`.
    pub fn load(&self, addr: usize) -> (byte: Option<u8>)
        requires
            self.wf(),
        ensures
            byte == if self@.allows(addr as int, Access::Read) {
                Some(self@.mem[addr as int])
            } else {
                None
            },
    {
        self.peek(addr, Access::Read)
    }

    /// A user-mode instruction fetch of one byte: the byte at `addr` if the address
    /// is mapped executable, else `None`.
    pub fn fetch(&self, addr: usize) -> (byte: Option<u8>)
        requires
            self.wf(),
        ensures
            byte == if self@.allows(addr as int, Access::Execute) {
                Some(self@.mem[addr as int])
            } else {
                None
            },
    {
        self.peek(addr, Access::Execute)
    }

    /// Writes one byte into the frame behind a mapped address.
    fn poke(&mut self, i: usize, addr: usize, value: u8)
        requires
            old(self).wf(),
            i < old(self)@.regions.len(),
            old(self)@.regions[i as int].contains_page(addr as int / 4096),
        ensures
            final(self).wf(),
            final(self)@ == old(self)@.after_write(addr as int, seq![value]),
    {
        assert(self.areas@[i as int].region == self@.regions[i as int]);
        let page = addr / PAGE_SIZE;
        let j = page - self.areas[i].region.start_page;
        let k = addr % PAGE_SIZE;
        self.areas[i].frames[j].write(k, value);
        proof {
            assert(self.spec_regions() =~= old(self).spec_regions());
            let target = old(self)@.after_write(addr as int, seq![value]);
            self.lemma_byte_in_area(addr as int, i as int);
            assert forall|a: int| self@.mem.dom().contains(a) implies #[trigger] self@.mem[a]
                == target.mem[a] by {
                let ia = region_index(self@.regions, a / 4096);
                self.lemma_byte_in_area(a, ia);
                old(self).lemma_byte_in_area(a, ia);
                if ia == i && a / 4096 == page {
                    old(self).areas@[ia].frames@[j as int].lemma_page_sized();
                }
            }
            assert(self@.mem =~= target.mem);
        }
    }

    /// A user-mode write of one byte. It takes effect, and `true` is returned, if
    /// the address is mapped writable; otherwise nothing changes.
    pub fn store(&mut self, addr: usize, value: u8) -> (ok: bool)
        requires
            old(self).wf(),
        ensures
            final(self).wf(),
            ok == old(self)@.allows(addr as int, Access::Write),
            ok ==> final(self)@ == old(self)@.after_write(addr as int, seq![value]),
            !ok ==> final(self)@ == old(self)@,
    {
        let page = addr / PAGE_SIZE;
        match self.find_area(page) {
            None => false,
            Some(i) => {
                proof {
                    self.lemma_byte_in_area(addr as int, i as int);
                    lemma_encode_permits(self.areas@[i as int].region.permissions);
                }
                if self.areas[i].flags.allows(Access::Write) {
                    self.poke(i, addr, value);
                    true
                } else {
                    false
                }
            },
        }
    }

    /// What the scan of `mmap` has found when it stops at `slot` without an
    /// overlap: no region meets the span, and `slot` is where the span belongs.
    proof fn lemma_scan_found_slot(&self, start_page: int, pages: int, slot: int)
        requires
            self.wf(),
            pages >= 1,
            0 <= slot <= self@.regions.len(),
            forall|j: int|
                0 <= j < slot ==> (#[trigger] self@.regions[j]).end_page() <= start_page,
            slot < self@.regions.len() ==> start_page < self@.regions[slot].end_page()
                && self@.regions[slot].start_page >= start_page + pages,
        ensures
            !span_overlaps(self@.regions, start_page, pages),
            insert_slot(self@.regions, start_page) == slot,
    {
        let s = self@.regions;
        assert forall|j: int| 0 <= j < s.len() implies {
            &&& !(#[trigger] s[j]).meets_span(start_page, pages)
            &&& j < slot ==> s[j].start_page < start_page
            &&& j >= slot ==> s[j].start_page >= start_page
        } by {}
        lemma_insert_slot_is(s, start_page, slot);
    }

    /// Putting a backed area with zero-filled frames into the slot of its region
    /// is the step that `mmap` takes on the abstract state.
    proof fn lemma_area_inserted(
        before: AddressSpace,
        after: AddressSpace,
        slot: int,
        start: usize,
        len: usize,
        perm: usize,
    )
        requires
            before.wf(),
            valid_mask(perm),
            len > 0,
            start as int / 4096 + spec_pages_for(len as int) <= max_pages(),
            !span_overlaps(before@.regions, start as int / 4096, spec_pages_for(len as int)),
            slot == insert_slot(before@.regions, start as int / 4096),
            0 <= slot <= before.areas@.len(),
            after.areas@.len() == before.areas@.len() + 1,
            after.areas@ == before.areas@.insert(slot, after.areas@[slot]),
            after.areas@[slot].region == SpaceView::new_region(start, len, perm),
            after.areas@[slot].flags == spec_encode(perm),
            after.areas@[slot].frames@.len() == spec_pages_for(len as int),
            forall|k: int|
                0 <= k < after.areas@[slot].frames@.len() ==> (
                #[trigger] after.areas@[slot].frames@[k]).is_zeroed(),
        ensures
            after.wf(),
            after@ == before@.after_mmap(start, len, perm),
    {
        let region = SpaceView::new_region(start, len, perm);
        let target = before@.after_mmap(start, len, perm);
        assert(after@.regions =~= target.regions);
        lemma_insert_keeps_wf(before@.regions, region);
        assert forall|a: int| #[trigger]
            after@.mem.dom().contains(a) == target.mem.dom().contains(a) by {
            lemma_lookup_after_insert(before@.regions, region, a / 4096);
        }
        assert forall|a: int| after@.mem.dom().contains(a) implies #[trigger] after@.mem[a]
            == target.mem[a] by {
            let i = region_index(after@.regions, a / 4096);
            after.lemma_byte_in_area(a, i);
            if i < slot {
                before.lemma_byte_in_area(a, i);
            } else if i > slot {
                before.lemma_byte_in_area(a, i - 1);
            }
        }
        assert(after@.mem =~= target.mem);
    }

    /// Taking out the area of an exactly matching region is the step that
    /// `munmap` takes on the abstract state.
    proof fn lemma_area_removed(
        before: AddressSpace,
        after: AddressSpace,
        k: int,
        start: usize,
        len: usize,
    )
        requires
            before.wf(),
            start % 4096 == 0,
            0 <= k < before.areas@.len(),
            before.areas@[k].region.start_page == start as int / 4096,
            before.areas@[k].region.page_count == spec_pages_for(len as int),
            after.areas@ == before.areas@.remove(k),
        ensures
            after.wf(),
            before@.munmap_finds(start, len),
            after@ == before@.after_munmap(start, len),
    {
        let target = before@.after_munmap(start, len);
        lemma_exact_unique(before@.regions, start as int / 4096, spec_pages_for(len as int), k);
        lemma_remove_keeps_wf(before@.regions, k);
        assert(after@.regions =~= target.regions);
        assert forall|a: int| #[trigger]
            after@.mem.dom().contains(a) == target.mem.dom().contains(a) by {
            lemma_lookup_after_remove(before@.regions, k, a / 4096);
        }
        assert forall|a: int| after@.mem.dom().contains(a) implies #[trigger] after@.mem[a]
            == target.mem[a] by {
            let i = region_index(after@.regions, a / 4096);
            after.lemma_byte_in_area(a, i);
            if i < k {
                before.lemma_byte_in_area(a, i);
            } else {
                before.lemma_byte_in_area(a, i + 1);
            }
        }
        assert(after@.mem =~= target.mem);
    }

    /// Maps the `len` bytes from `start`, rounded up to whole pages, with the
    /// permissions in `perm`. The caller has already checked that `start` is
    /// page-aligned and `perm` a valid mask.
    ///
    /// Fails with `LengthError` if `len` is zero or the range leaves the address
    /// space, with `OverlapError` if a page of the range is already mapped, and with
    /// `ExhaustionError` if the pool holds fewer frames than the range has pages.
    /// A failure changes nothing. On success the region stands in the list in
    /// sorted order, each of its pages is backed by a zero-filled frame taken from
    /// the pool, and the rest of memory is as before.
    pub fn mmap(&mut self, pool: &mut FramePool, start: usize, len: usize, perm: usize) -> (res:
        Result<(), MapError>)
        requires
            old(self).wf(),
            old(pool).wf(),
            start % PAGE_SIZE == 0,
            valid_mask(perm),
        ensures
            final(self).wf(),
            final(pool).wf(),
            match res {
                Ok(()) => {
                    &&& old(self)@.mmap_error(old(pool).spec_available(), start, len) is None
                    &&& final(self)@ == old(self)@.after_mmap(start, len, perm)
                    &&& final(pool).spec_available() == old(pool).spec_available()
                        - spec_pages_for(len as int)
                },
                Err(e) => {
                    &&& old(self)@.mmap_error(old(pool).spec_available(), start, len) == Some(e)
                    &&& final(self)@ == old(self)@
                    &&& final(pool).spec_available() == old(pool).spec_available()
                },
            },
    {
        let start_page = start / PAGE_SIZE;
        let pages = pages_for(len);
        let limit = usize::MAX / PAGE_SIZE + 1;
        if len == 0 || pages > limit - start_page {
            return Err(MapError::LengthError);
        }
        let end_page = start_page + pages;
        let mut slot: usize = 0;
        while slot < self.areas.len() && self.areas[slot].region.start_page
            + self.areas[slot].region.page_count <= start_page
            invariant
                self.wf(),
                slot <= self.areas@.len(),
                forall|j: int|
                    0 <= j < slot ==> (#[trigger] self@.regions[j]).end_page() <= start_page,
                forall|j: int|
                    0 <= j < self.areas@.len() ==> self@.regions[j] == (
                    #[trigger] self.areas@[j]).region,
                forall|j: int|
                    0 <= j < self@.regions.len() ==> (#[trigger] self@.regions[j]).well_formed(),
            decreases self.areas@.len() - slot,
        {
            slot = slot + 1;
        }
        if slot < self.areas.len() && self.areas[slot].region.start_page < end_page {
            return Err(MapError::OverlapError);
        }
        proof {
            self.lemma_scan_found_slot(start_page as int, pages as int, slot as int);
        }
        if pool.available() < pages {
            return Err(MapError::ExhaustionError);
        }
        let mut frames: Vec<Frame> = Vec::new();
        let mut taken: usize = 0;
        while taken < pages
            invariant
                pool.wf(),
                taken <= pages,
                pages <= old(pool).spec_available(),
                pool.spec_available() == old(pool).spec_available() - taken,
                frames@.len() == taken,
                forall|k: int| 0 <= k < frames@.len() ==> (#[trigger] frames@[k]).is_zeroed(),
            decreases pages - taken,
        {
            let frame = pool.acquire().unwrap();
            frames.push(frame);
            taken = taken + 1;
        }
        let region = MemoryRegion { start_page, page_count: pages, permissions: perm };
        let flags = encode(perm).unwrap();
        self.areas.insert(slot, MappedArea { region, flags, frames });
        proof {
            Self::lemma_area_inserted(*old(self), *self, slot as int, start, len, perm);
        }
        Ok(())
    }

    /// Unmaps the region that starts at `start` and is as many pages long as `len`
    /// bytes need. Only an exact match counts: a range that covers part of a
    /// region, or more than one, is not found.
    ///
    /// On success the region leaves the list, its frames go back to the pool, and
    /// its addresses are no longer mapped. On `NotFoundError` nothing changes.
    pub fn munmap(&mut self, pool: &mut FramePool, start: usize, len: usize) -> (res: Result<
        (),
        MapError,
    >)
        requires
            old(self).wf(),
            old(pool).wf(),
        ensures
            final(self).wf(),
            final(pool).wf(),
            res is Ok == old(self)@.munmap_finds(start, len),
            match res {
                Ok(()) => {
                    &&& final(self)@ == old(self)@.after_munmap(start, len)
                    &&& final(pool).spec_available() == old(pool).spec_available()
                        + spec_pages_for(len as int)
                },
                Err(e) => {
                    &&& e == MapError::NotFoundError
                    &&& final(self)@ == old(self)@
                    &&& final(pool).spec_available() == old(pool).spec_available()
                },
            },
    {
        let pages = pages_for(len);
        if start % PAGE_SIZE != 0 {
            return Err(MapError::NotFoundError);
        }
        let start_page = start / PAGE_SIZE;
        let mut i: usize = 0;
        while i < self.areas.len() && !(self.areas[i].region.start_page == start_page
            && self.areas[i].region.page_count == pages)
            invariant
                self.wf(),
                i <= self.areas@.len(),
                forall|j: int|
                    0 <= j < self.areas@.len() ==> self@.regions[j] == (
                    #[trigger] self.areas@[j]).region,
                forall|j: int|
                    0 <= j < i ==> !((#[trigger] self@.regions[j]).start_page == start_page
                        && self@.regions[j].page_count == pages),
            decreases self.areas@.len() - i,
        {
            i = i + 1;
        }
        if i >= self.areas.len() {
            return Err(MapError::NotFoundError);
        }
        let mut area = self.areas.remove(i);
        proof {
            Self::lemma_area_removed(*old(self), *self, i as int, start, len);
        }
        let mut returned: usize = 0;
        while returned < pages
            invariant
                pool.wf(),
                returned <= pages,
                area.frames@.len() == pages - returned,
                pool.spec_available() == old(pool).spec_available() + returned,
            decreases pages - returned,
        {
            let frame = area.frames.pop().unwrap();
            pool.release(frame);
            returned = returned + 1;
        }
        Ok(())
    }

    /// Whether each of the `len` addresses from `addr` on is mapped. Each page of
    /// the range is looked up once.
    pub fn range_is_mapped(&self, addr: usize, len: usize) -> (ok: bool)
        requires
            self.wf(),
        ensures
            ok == self@.range_mapped(addr as int, len as int),
            ok ==> addr + len <= usize::MAX + 1,
    {
        if len == 0 {
            return true;
        }
        if len - 1 > usize::MAX - addr {
            proof {
                if self@.mapped(addr + len - 1) {
                    lemma_mapped_in_range(self@.regions, addr + len - 1);
                }
            }
            return false;
        }
        let first = addr / PAGE_SIZE;
        let last = (addr + (len - 1)) / PAGE_SIZE;
        let mut page = first;
        while page <= last
            invariant
                self.wf(),
                first <= page <= last + 1,
                first == addr as int / 4096,
                last == (addr + (len - 1)) / 4096,
                len >= 1,
                addr + (len - 1) <= usize::MAX,
                forall|p: int| first <= p < page ==> page_mapped(self@.regions, p),
            decreases last + 1 - page,
        {
            if self.find_area(page).is_none() {
                proof {
                    let a: int = if page == first {
                        addr as int
                    } else {
                        page * 4096
                    };
                    assert(!self@.mapped(a));
                }
                return false;
            }
            page = page + 1;
        }
        true
    }

    /// Writes `count` bytes of `data`, from position `from` on, to the addresses
    /// from `dst` on, all of which lie in one page of area `area`.
    fn write_segment(&mut self, area: usize, dst: usize, data: &Vec<u8>, from: usize, count: usize)
        requires
            old(self).wf(),
            area < old(self)@.regions.len(),
            old(self)@.regions[area as int].contains_page(dst as int / 4096),
            dst % 4096 + count <= 4096,
            from + count <= data@.len(),
        ensures
            final(self).wf(),
            final(self)@ == old(self)@.after_write(
                dst as int,
                data@.subrange(from as int, from + count),
            ),
    {
        let mut k: usize = 0;
        let ghost total = data.len();
        proof {
            assert(old(self)@.after_write(dst as int, data@.subrange(from as int, from as int)).mem
                =~= old(self)@.mem);
        }
        while k < count
            invariant
                self.wf(),
                k <= count,
                total == data@.len(),
                area < self@.regions.len(),
                self@.regions[area as int].contains_page(dst as int / 4096),
                dst % 4096 + count <= 4096,
                from + count <= data@.len(),
                self@ == old(self)@.after_write(
                    dst as int,
                    data@.subrange(from as int, from + k),
                ),
            decreases count - k,
        {
            self.poke(area, dst + k, data[from + k]);
            proof {
                let target = old(self)@.after_write(
                    dst as int,
                    data@.subrange(from as int, from + k + 1),
                );
                assert(self@.mem =~= target.mem);
            }
            k = k + 1;
        }
    }

    /// Copies `data` into the task's memory at `addr`, with the kernel's
    /// privilege: the pages must be mapped, their permission bits are not
    /// consulted. The destination may cross page and region boundaries: the copy
    /// goes page by page, each piece to the frame behind its own page. Unless the
    /// whole range is mapped, nothing is written and `false` is returned.
    pub fn copy_out(&mut self, addr: usize, data: &Vec<u8>) -> (ok: bool)
        requires
            old(self).wf(),
        ensures
            final(self).wf(),
            ok == old(self)@.range_mapped(addr as int, data@.len() as int),
            ok ==> final(self)@ == old(self)@.after_write(addr as int, data@),
            !ok ==> final(self)@ == old(self)@,
    {
        let len = data.len();
        if !self.range_is_mapped(addr, len) {
            return false;
        }
        let mut done: usize = 0;
        proof {
            assert(old(self)@.after_write(addr as int, data@.take(0)).mem =~= old(self)@.mem);
        }
        while done < len
            invariant
                self.wf(),
                done <= len,
                len == data@.len(),
                addr + len <= usize::MAX + 1,
                old(self)@.range_mapped(addr as int, len as int),
                self@ == old(self)@.after_write(addr as int, data@.take(done as int)),
            decreases len - done,
        {
            let dst = addr + done;
            assert(old(self)@.mapped(dst as int));
            let area = self.find_area(dst / PAGE_SIZE).unwrap();
            let room = PAGE_SIZE - dst % PAGE_SIZE;
            let count = if len - done < room {
                len - done
            } else {
                room
            };
            self.write_segment(area, dst, data, done, count);
            proof {
                let target = old(self)@.after_write(addr as int, data@.take(done + count));
                assert(self@.mem =~= target.mem);
            }
            done = done + count;
        }
        proof {
            assert(data@.take(len as int) =~= data@);
        }
        true
    }

    /// Copies the `len` bytes at `addr` out of the task's memory, with the
    /// kernel's privilege, page by page. Returns `None` unless the whole range is
    /// mapped.
    pub fn copy_in(&self, addr: usize, len: usize) -> (data: Option<Vec<u8>>)
        requires
            self.wf(),
        ensures
            data.is_some() == self@.range_mapped(addr as int, len as int),
            data.is_some() ==> data.unwrap()@ == self@.bytes_at(addr as int, len as nat),
    {
        if !self.range_is_mapped(addr, len) {
            return None;
        }
        let mut out: Vec<u8> = Vec::new();
        let mut done: usize = 0;
        while done < len
            invariant
                self.wf(),
                done <= len,
                addr + len <= usize::MAX + 1,
                self@.range_mapped(addr as int, len as int),
                out@ == self@.bytes_at(addr as int, done as nat),
            decreases len - done,
        {
            let src = addr + done;
            assert(self@.mapped(src as int));
            let page = src / PAGE_SIZE;
            let area = &self.areas[self.find_area(page).unwrap()];
            let frame = &area.frames[page - area.region.start_page];
            let room = PAGE_SIZE - src % PAGE_SIZE;
            let count = if len - done < room {
                len - done
            } else {
                room
            };
            let mut k: usize = 0;
            while k < count
                invariant
                    self.wf(),
                    k <= count,
                    src == addr + done,
                    done + count <= len,
                    addr + len <= usize::MAX + 1,
                    src % 4096 + count <= 4096,
                    page == src / 4096,
                    page_mapped(self@.regions, page as int),
                    *area == self.areas@[region_index(self@.regions, page as int)],
                    area.region.contains_page(page as int),
                    *frame == area.frames@[page - area.region.start_page],
                    out@ == self@.bytes_at(addr as int, (done + k) as nat),
                decreases count - k,
            {
                proof {
                    self.lemma_byte_in_area(src + k, region_index(self@.regions, page as int));
                }
                out.push(frame.read(src % PAGE_SIZE + k));
                k = k + 1;
            }
            done = done + count;
        }
        Some(out)
    }
}

} // verus!
