//! Regions of pages and sorted lists of them: what it means for a list to be
//! well-formed, how pages are looked up in it, and what inserting and removing
//! a region does to it.

use vstd::prelude::*;
use crate::perm::valid_mask;

verus! {

/// The failures of mapping and unmapping. User code only ever sees them collapsed
/// into one failure value.
#[derive(Clone, Copy, Debug, PartialEq, Eq, Structural)]
pub enum MapError {
    /// The start address is not a multiple of the page size.
    AlignmentError,
    /// The permission mask is empty or names a bit outside read, write, execute.
    PermissionError,
    /// The length is zero, or the range runs past the end of the address space.
    LengthError,
    /// The range shares a page with a region that is already mapped.
    OverlapError,
    /// The frame pool cannot back the range.
    ExhaustionError,
    /// No mapped region has exactly the given start and length.
    NotFoundError,
}

/// A run of pages with one permission mask.
#[derive(Clone, Copy, Debug, PartialEq, Eq, Structural)]
pub struct MemoryRegion {
    /// Number of the first page: its address divided by the page size.
    pub start_page: usize,
    /// How many pages the region holds; at least one.
    pub page_count: usize,
    /// What user code may do with the pages: 1 read, 2 write, 4 execute, added up.
    pub permissions: usize,
}

/// Number of pages in the whole address space.
pub open spec fn max_pages() -> int {
    usize::MAX as int / 4096 + 1
}

/// Number of pages needed to hold `len` bytes.
pub open spec fn spec_pages_for(len: int) -> int {
    (len + 4095) / 4096
}

impl MemoryRegion {
    /// The first page after the region.
    pub open spec fn end_page(self) -> int {
        self.start_page + self.page_count
    }

    /// Whether page `page` belongs to the region.
    pub open spec fn contains_page(self, page: int) -> bool {
        self.start_page <= page < self.end_page()
    }

    /// Whether the region shares a page with the span of `count` pages from `start_page`.
    pub open spec fn meets_span(self, start_page: int, count: int) -> bool {
        self.start_page < start_page + count && start_page < self.end_page()
    }

    /// A region holds at least one page, lies inside the address space, and
    /// carries a valid permission mask.
    pub open spec fn well_formed(self) -> bool {
        &&& self.page_count >= 1
        &&& self.end_page() <= max_pages()
        &&& valid_mask(self.permissions)
    }
}

/// The regions are in ascending order and no two share a page.
pub open spec fn regions_sorted(s: Seq<MemoryRegion>) -> bool {
    forall|i: int, j: int| 0 <= i < j < s.len() ==> s[i].end_page() <= s[j].start_page
}

/// Every region is well-formed and the list is sorted and disjoint.
pub open spec fn regions_wf(s: Seq<MemoryRegion>) -> bool {
    &&& forall|i: int| 0 <= i < s.len() ==> (#[trigger] s[i]).well_formed()
    &&& regions_sorted(s)
}

/// Whether some region holds page `page`.
pub open spec fn page_mapped(s: Seq<MemoryRegion>, page: int) -> bool {
    exists|i: int| 0 <= i < s.len() && (#[trigger] s[i]).contains_page(page)
}

/// The position of the region that holds page `page`, where there is one.
pub open spec fn region_index(s: Seq<MemoryRegion>, page: int) -> int {
    choose|i: int| 0 <= i < s.len() && (#[trigger] s[i]).contains_page(page)
}

/// Whether some region shares a page with the span of `count` pages from `start_page`.
pub open spec fn span_overlaps(s: Seq<MemoryRegion>, start_page: int, count: int) -> bool {
    exists|i: int| 0 <= i < s.len() && (#[trigger] s[i]).meets_span(start_page, count)
}

/// Whether some region is exactly the span of `count` pages from `start_page`.
pub open spec fn has_exact(s: Seq<MemoryRegion>, start_page: int, count: int) -> bool {
    exists|i: int|
        0 <= i < s.len() && (#[trigger] s[i]).start_page == start_page && s[i].page_count
            == count
}

/// The position of the region that is exactly the given span, where there is one.
pub open spec fn exact_index(s: Seq<MemoryRegion>, start_page: int, count: int) -> int {
    choose|i: int|
        0 <= i < s.len() && (#[trigger] s[i]).start_page == start_page && s[i].page_count
            == count
}

/// Where a region that starts at `start_page` goes in a sorted list: behind every
/// region that starts earlier.
pub open spec fn insert_slot(s: Seq<MemoryRegion>, start_page: int) -> int
    decreases s.len(),
{
    if s.len() == 0 {
        0
    } else if s.last().start_page < start_page {
        s.len() as int
    } else {
        insert_slot(s.drop_last(), start_page)
    }
}

/// In a well-formed list a page lies in at most one region.
pub proof fn lemma_region_unique(s: Seq<MemoryRegion>, page: int, i: int)
    requires
        regions_wf(s),
        0 <= i < s.len(),
        s[i].contains_page(page),
    ensures
        page_mapped(s, page),
        region_index(s, page) == i,
{
}

/// In a well-formed list at most one region is exactly a given span.
pub proof fn lemma_exact_unique(s: Seq<MemoryRegion>, start_page: int, count: int, i: int)
    requires
        regions_wf(s),
        0 <= i < s.len(),
        s[i].start_page == start_page,
        s[i].page_count == count,
    ensures
        has_exact(s, start_page, count),
        exact_index(s, start_page, count) == i,
{
}

/// The slot splits a sorted list into the regions that start before `start_page`
/// and those that start at or after it.
pub proof fn lemma_insert_slot(s: Seq<MemoryRegion>, start_page: int)
    requires
        regions_wf(s),
    ensures
        0 <= insert_slot(s, start_page) <= s.len(),
        forall|i: int| 0 <= i < insert_slot(s, start_page) ==> (#[trigger] s[i]).start_page
            < start_page,
        forall|i: int|
            insert_slot(s, start_page) <= i < s.len() ==> (#[trigger] s[i]).start_page
                >= start_page,
    decreases s.len(),
{
    if s.len() > 0 && s.last().start_page >= start_page {
        let t = s.drop_last();
        assert(regions_wf(t));
        lemma_insert_slot(t, start_page);
        assert forall|i: int| 0 <= i < t.len() implies t[i] == s[i] by {}
    }
}

/// A position that splits the list as the slot does is the slot.
pub proof fn lemma_insert_slot_is(s: Seq<MemoryRegion>, start_page: int, k: int)
    requires
        regions_wf(s),
        0 <= k <= s.len(),
        forall|i: int| 0 <= i < k ==> (#[trigger] s[i]).start_page < start_page,
        forall|i: int| k <= i < s.len() ==> (#[trigger] s[i]).start_page >= start_page,
    ensures
        insert_slot(s, start_page) == k,
{
    lemma_insert_slot(s, start_page);
    let slot = insert_slot(s, start_page);
    if slot < k {
        assert(s[slot].start_page >= start_page);
    } else if k < slot {
        assert(s[k].start_page >= start_page);
    }
}

/// Putting a well-formed region that meets no other into its slot keeps the list well-formed.
pub proof fn lemma_insert_keeps_wf(s: Seq<MemoryRegion>, r: MemoryRegion)
    requires
        regions_wf(s),
        r.well_formed(),
        !span_overlaps(s, r.start_page as int, r.page_count as int),
    ensures
        regions_wf(s.insert(insert_slot(s, r.start_page as int), r)),
{
    lemma_insert_slot(s, r.start_page as int);
}

/// Taking a region out keeps the list well-formed.
pub proof fn lemma_remove_keeps_wf(s: Seq<MemoryRegion>, k: int)
    requires
        regions_wf(s),
        0 <= k < s.len(),
    ensures
        regions_wf(s.remove(k)),
{
}

/// The pages of the address space cover exactly the addresses that fit a machine word.
pub proof fn lemma_max_pages()
    ensures
        max_pages() * 4096 == usize::MAX + 1,
{
}

/// A page that lies in a well-formed region holds only addresses that fit a machine word.
pub proof fn lemma_mapped_in_range(s: Seq<MemoryRegion>, a: int)
    requires
        regions_wf(s),
        page_mapped(s, a / 4096),
    ensures
        0 <= a <= usize::MAX,
{
    lemma_max_pages();
    let i = region_index(s, a / 4096);
    assert(s[i].well_formed());
}

/// Looking a page up after a region went into its slot: the page is found in
/// the new region, or where it was found before.
pub proof fn lemma_lookup_after_insert(s: Seq<MemoryRegion>, r: MemoryRegion, page: int)
    requires
        regions_wf(s),
        r.well_formed(),
        !span_overlaps(s, r.start_page as int, r.page_count as int),
    ensures
        ({
            let t = s.insert(insert_slot(s, r.start_page as int), r);
            &&& regions_wf(t)
            &&& page_mapped(t, page) == (page_mapped(s, page) || r.contains_page(page))
            &&& r.contains_page(page) ==> !page_mapped(s, page) && t[region_index(t, page)] == r
            &&& page_mapped(s, page) ==> t[region_index(t, page)] == s[region_index(s, page)]
        }),
{
    lemma_insert_slot(s, r.start_page as int);
    lemma_insert_keeps_wf(s, r);
    let k = insert_slot(s, r.start_page as int);
    let t = s.insert(k, r);
    if page_mapped(s, page) {
        let i = region_index(s, page);
        let j = if i < k {
            i
        } else {
            i + 1
        };
        lemma_region_unique(t, page, j);
    }
    if r.contains_page(page) {
        lemma_region_unique(t, page, k);
    }
}

/// Looking a page up after a region was taken out: the page is found where it
/// was found before, unless it lay in that region.
pub proof fn lemma_lookup_after_remove(s: Seq<MemoryRegion>, k: int, page: int)
    requires
        regions_wf(s),
        0 <= k < s.len(),
    ensures
        ({
            let t = s.remove(k);
            &&& regions_wf(t)
            &&& page_mapped(t, page) == (page_mapped(s, page) && !s[k].contains_page(page))
            &&& page_mapped(t, page) ==> t[region_index(t, page)] == s[region_index(s, page)]
        }),
{
    lemma_remove_keeps_wf(s, k);
    let t = s.remove(k);
    if page_mapped(t, page) {
        let j = region_index(t, page);
        let i = if j < k {
            j
        } else {
            j + 1
        };
        lemma_region_unique(s, page, i);
    }
    if page_mapped(s, page) && !s[k].contains_page(page) {
        let i = region_index(s, page);
        let j = if i < k {
            i
        } else {
            i - 1
        };
        lemma_region_unique(t, page, j);
    }
    if s[k].contains_page(page) {
        lemma_region_unique(s, page, k);
    }
}

} // verus!
