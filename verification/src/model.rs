//! The abstract state of an address space, the steps that the address-space
//! calls take on it, and what holds of those steps.

use vstd::prelude::*;
use crate::perm::{mask_grants, valid_mask, Access};
use crate::region::{
    exact_index, has_exact, insert_slot, lemma_exact_unique, lemma_insert_keeps_wf,
    lemma_insert_slot, lemma_lookup_after_insert, lemma_lookup_after_remove, max_pages,
    page_mapped, region_index, regions_wf, span_overlaps, spec_pages_for, MapError, MemoryRegion,
};

verus! {

/// The abstract state of an address space.
pub struct SpaceView {
    /// The mapped regions, in ascending order.
    pub regions: Seq<MemoryRegion>,
    /// The byte at every mapped address.
    pub mem: Map<int, u8>,
}

impl SpaceView {
    /// The state with nothing mapped.
    pub open spec fn empty() -> SpaceView {
        SpaceView { regions: Seq::empty(), mem: Map::empty() }
    }

    /// The region list is well-formed, and memory holds a byte exactly at the
    /// addresses whose page lies in a region.
    pub open spec fn wf(self) -> bool {
        &&& regions_wf(self.regions)
        &&& forall|a: int| #[trigger] self.mem.dom().contains(a) <==> self.mapped(a)
    }

    /// Whether address `addr` lies in a mapped page.
    pub open spec fn mapped(self, addr: int) -> bool {
        page_mapped(self.regions, addr / 4096)
    }

    /// The region that holds address `addr`, where it is mapped.
    pub open spec fn region_at(self, addr: int) -> MemoryRegion {
        self.regions[region_index(self.regions, addr / 4096)]
    }

    /// Whether user code may touch address `addr` in the given way.
    pub open spec fn allows(self, addr: int, access: Access) -> bool {
        self.mapped(addr) && mask_grants(self.region_at(addr).permissions, access)
    }

    /// Whether every address of the `len` bytes from `addr` is mapped.
    pub open spec fn range_mapped(self, addr: int, len: int) -> bool {
        forall|a: int| addr <= a < addr + len ==> #[trigger] self.mapped(a)
    }

    /// The region that `mmap(start, len, perm)` creates.
    pub open spec fn new_region(start: usize, len: usize, perm: usize) -> MemoryRegion {
        MemoryRegion {
            start_page: (start as int / 4096) as usize,
            page_count: spec_pages_for(len as int) as usize,
            permissions: perm,
        }
    }

    /// Why `mmap` of an aligned range with a valid mask fails, if it does, with
    /// `available` free frames: a bad length first, then an overlap, then a lack of frames.
    pub open spec fn mmap_error(self, available: nat, start: usize, len: usize) -> Option<
        MapError,
    > {
        if len == 0 || start as int / 4096 + spec_pages_for(len as int) > max_pages() {
            Some(MapError::LengthError)
        } else if span_overlaps(self.regions, start as int / 4096, spec_pages_for(len as int)) {
            Some(MapError::OverlapError)
        } else if available < spec_pages_for(len as int) {
            Some(MapError::ExhaustionError)
        } else {
            None
        }
    }

    /// The state after a successful `mmap`: the new region stands in its slot, and
    /// every byte of its pages is zero.
    pub open spec fn after_mmap(self, start: usize, len: usize, perm: usize) -> SpaceView {
        let r = Self::new_region(start, len, perm);
        SpaceView {
            regions: self.regions.insert(insert_slot(self.regions, r.start_page as int), r),
            mem: Map::new(
                |a: int| self.mem.dom().contains(a) || r.contains_page(a / 4096),
                |a: int|
                    if r.contains_page(a / 4096) {
                        0u8
                    } else {
                        self.mem[a]
                    },
            ),
        }
    }

    /// Whether `munmap(start, len)` finds its region: one that starts at `start`
    /// and is as many pages long as `len` bytes need.
    pub open spec fn munmap_finds(self, start: usize, len: usize) -> bool {
        start % 4096 == 0 && has_exact(
            self.regions,
            start as int / 4096,
            spec_pages_for(len as int),
        )
    }

    /// The state after a successful `munmap`: the region is gone, and so are its bytes.
    pub open spec fn after_munmap(self, start: usize, len: usize) -> SpaceView {
        let k = exact_index(self.regions, start as int / 4096, spec_pages_for(len as int));
        let r = self.regions[k];
        SpaceView {
            regions: self.regions.remove(k),
            mem: Map::new(
                |a: int| self.mem.dom().contains(a) && !r.contains_page(a / 4096),
                |a: int| self.mem[a],
            ),
        }
    }

    /// The state after `data` was written to the addresses from `addr` on.
    pub open spec fn after_write(self, addr: int, data: Seq<u8>) -> SpaceView {
        SpaceView {
            regions: self.regions,
            mem: Map::new(
                |a: int| self.mem.dom().contains(a),
                |a: int|
                    if addr <= a < addr + data.len() {
                        data[a - addr]
                    } else {
                        self.mem[a]
                    },
            ),
        }
    }

    /// The bytes stored at the `len` addresses from `addr` on.
    pub open spec fn bytes_at(self, addr: int, len: nat) -> Seq<u8> {
        Seq::new(len, |i: int| self.mem[addr + i])
    }
}

impl SpaceView {
    /// Whether address `addr` lies in one of the pages that `mmap(start, len, _)`
    /// or `munmap(start, len)` speaks of.
    pub open spec fn in_span(start: usize, len: usize, addr: int) -> bool {
        start as int / 4096 <= addr / 4096 < start as int / 4096 + spec_pages_for(len as int)
    }

    /// The pages of an aligned range hold every address of the range, and with
    /// them the rest of its last page.
    pub proof fn lemma_range_in_span(start: usize, len: usize, addr: int)
        requires
            start % 4096 == 0,
        ensures
            start <= addr < start + len ==> Self::in_span(start, len, addr),
            Self::in_span(start, len, addr) <==> start <= addr < start + 4096 * spec_pages_for(
                len as int,
            ),
    {
    }

    /// Mapping succeeds whenever the start is aligned, the length is not zero, the
    /// mask is valid and no mapped region shares a page with the range, as long as
    /// the range lies inside the address space and the pool holds a frame for each
    /// page. Afterwards every address of the range may be touched in exactly the
    /// ways that the mask grants, its bytes read as zero, and all other addresses
    /// are as they were.
    pub proof fn lemma_mmap_grants_mask(
        self,
        available: nat,
        start: usize,
        len: usize,
        perm: usize,
        addr: int,
        access: Access,
    )
        requires
            self.wf(),
            start % 4096 == 0,
            len > 0,
            valid_mask(perm),
            !span_overlaps(self.regions, start as int / 4096, spec_pages_for(len as int)),
            start as int / 4096 + spec_pages_for(len as int) <= max_pages(),
            available >= spec_pages_for(len as int),
        ensures
            self.mmap_error(available, start, len) is None,
            self.after_mmap(start, len, perm).wf(),
            Self::in_span(start, len, addr) ==> {
                &&& self.after_mmap(start, len, perm).allows(addr, access) == mask_grants(
                    perm,
                    access,
                )
                &&& self.after_mmap(start, len, perm).mem[addr] == 0
            },
            !Self::in_span(start, len, addr) ==> {
                &&& self.after_mmap(start, len, perm).allows(addr, access) == self.allows(
                    addr,
                    access,
                )
                &&& self.after_mmap(start, len, perm).mapped(addr) == self.mapped(addr)
                &&& self.mapped(addr) ==> self.after_mmap(start, len, perm).mem[addr]
                    == self.mem[addr]
            },
    {
        let r = Self::new_region(start, len, perm);
        let after = self.after_mmap(start, len, perm);
        lemma_lookup_after_insert(self.regions, r, addr / 4096);
        assert forall|a: int| #[trigger] after.mem.dom().contains(a) <==> after.mapped(a) by {
            lemma_lookup_after_insert(self.regions, r, a / 4096);
        }
    }

    /// Unmapping an exactly matching range leaves a well-formed state in which no
    /// address of the range is mapped any more, so none can be touched in any way;
    /// all other addresses are as they were.
    pub proof fn lemma_munmap_revokes(self, start: usize, len: usize, addr: int, access: Access)
        requires
            self.wf(),
            self.munmap_finds(start, len),
        ensures
            self.after_munmap(start, len).wf(),
            Self::in_span(start, len, addr) ==> {
                &&& !self.after_munmap(start, len).mapped(addr)
                &&& !self.after_munmap(start, len).allows(addr, access)
                &&& !self.after_munmap(start, len).mem.dom().contains(addr)
            },
            !Self::in_span(start, len, addr) ==> {
                &&& self.after_munmap(start, len).allows(addr, access) == self.allows(
                    addr,
                    access,
                )
                &&& self.after_munmap(start, len).mapped(addr) == self.mapped(addr)
                &&& self.mapped(addr) ==> self.after_munmap(start, len).mem[addr]
                    == self.mem[addr]
            },
    {
        let k = exact_index(self.regions, start as int / 4096, spec_pages_for(len as int));
        let after = self.after_munmap(start, len);
        lemma_lookup_after_remove(self.regions, k, addr / 4096);
        assert forall|a: int| #[trigger] after.mem.dom().contains(a) <==> after.mapped(a) by {
            lemma_lookup_after_remove(self.regions, k, a / 4096);
        }
    }

    /// A region that was just mapped is found by `munmap` with the same start and
    /// length, and unmapping it gives back the state from before the mapping.
    pub proof fn lemma_mmap_then_munmap(
        self,
        available: nat,
        start: usize,
        len: usize,
        perm: usize,
    )
        requires
            self.wf(),
            start % 4096 == 0,
            valid_mask(perm),
            self.mmap_error(available, start, len) is None,
        ensures
            self.after_mmap(start, len, perm).munmap_finds(start, len),
            self.after_mmap(start, len, perm).after_munmap(start, len) == self,
    {
        let r = Self::new_region(start, len, perm);
        let k = insert_slot(self.regions, r.start_page as int);
        let mid = self.after_mmap(start, len, perm);
        lemma_insert_slot(self.regions, r.start_page as int);
        lemma_insert_keeps_wf(self.regions, r);
        lemma_exact_unique(mid.regions, r.start_page as int, r.page_count as int, k);
        let back = mid.after_munmap(start, len);
        assert(back.regions =~= self.regions);
        assert forall|a: int| self.mem.dom().contains(a) implies !r.contains_page(a / 4096) by {
            assert(self.region_at(a).contains_page(a / 4096));
        }
        assert(back.mem =~= self.mem);
    }

    /// Mapping a range again while it is still mapped fails with an overlap.
    pub proof fn lemma_mmap_twice_overlaps(
        self,
        available: nat,
        later: nat,
        start: usize,
        len: usize,
        perm: usize,
    )
        requires
            self.wf(),
            start % 4096 == 0,
            valid_mask(perm),
            self.mmap_error(available, start, len) is None,
        ensures
            self.after_mmap(start, len, perm).mmap_error(later, start, len) == Some(
                MapError::OverlapError,
            ),
    {
        let r = Self::new_region(start, len, perm);
        let k = insert_slot(self.regions, r.start_page as int);
        lemma_insert_slot(self.regions, r.start_page as int);
        assert(self.after_mmap(start, len, perm).regions[k] == r);
    }

    /// What was written to a mapped range is what is read there afterwards.
    pub proof fn lemma_write_then_read(self, addr: int, data: Seq<u8>)
        requires
            self.wf(),
            self.range_mapped(addr, data.len() as int),
        ensures
            self.after_write(addr, data).range_mapped(addr, data.len() as int),
            self.after_write(addr, data).bytes_at(addr, data.len()) == data,
    {
        let after = self.after_write(addr, data);
        assert forall|a: int| addr <= a < addr + data.len() implies #[trigger] after.mapped(
            a,
        ) by {
            assert(self.mapped(a));
        }
        assert forall|i: int| 0 <= i < data.len() implies after.bytes_at(addr, data.len())[i]
            == data[i] by {
            assert(self.mapped(addr + i));
            assert(self.mem.dom().contains(addr + i));
        }
        assert(after.bytes_at(addr, data.len()) =~= data);
    }

    /// A write changes the bytes it names and nothing else: the regions, and with
    /// them what user code may touch, stay as they were.
    pub proof fn lemma_write_keeps_access(self, addr: int, data: Seq<u8>, at: int, access: Access)
        requires
            self.wf(),
        ensures
            self.after_write(addr, data).wf(),
            self.after_write(addr, data).allows(at, access) == self.allows(at, access),
            self.mapped(at) ==> self.after_write(addr, data).mem[at] == if addr <= at < addr
                + data.len() {
                data[at - addr]
            } else {
                self.mem[at]
            },
    {
    }
}

} // verus!
