//! The linear (identity-plus-offset) strategy: the physical frame of a page
//! is the page's number plus a fixed offset. No allocator is involved — the
//! backing range (device memory, a kernel image) exists outside the pool —
//! so mapping and unmapping can never change the free-frame count.

use vstd::prelude::*;
use crate::attr::MemoryAttr;
use crate::error::MemoryError;
use crate::page_table::PageTable;
use crate::page_table::PageTableEntry;

verus! {

/// Exactly how `Linear::map` changes the page table. The free list is not a
/// parameter because the strategy never touches it.
pub open spec fn linear_map_post(
    pt0: Map<usize, PageTableEntry>,
    pt1: Map<usize, PageTableEntry>,
    offset: usize,
    addr: usize,
    attr: MemoryAttr,
    r: Result<(), MemoryError>,
) -> bool {
    if pt0.contains_key(addr) {
        r == Err::<(), MemoryError>(MemoryError::AlreadyMapped) && pt1 == pt0
    } else {
        r == Ok::<(), MemoryError>(()) && pt1 == pt0.insert(
            addr,
            (PageTableEntry { frame: Some((addr + offset) as usize), attr }),
        )
    }
}

/// Exactly how `Linear::unmap` changes the page table.
pub open spec fn linear_unmap_post(
    pt0: Map<usize, PageTableEntry>,
    pt1: Map<usize, PageTableEntry>,
    addr: usize,
    r: Result<(), MemoryError>,
) -> bool {
    if !pt0.contains_key(addr) {
        r == Err::<(), MemoryError>(MemoryError::EntryNotFound) && pt1 == pt0
    } else {
        r == Ok::<(), MemoryError>(()) && pt1 == pt0.remove(addr)
    }
}

/// The linear strategy: frame = page + offset.
#[derive(Clone, Copy, Debug)]
pub struct Linear {
    pub offset: usize,
}

impl Linear {
    /// A handler that maps every page at the given constant offset.
    pub fn new(offset: usize) -> (r: Self)
        ensures
            r.offset == offset,
    {
        Linear { offset }
    }

    /// The constant virtual-to-physical offset of this handler.
    pub fn offset(&self) -> (r: usize)
        ensures
            r == self.offset,
    {
        self.offset
    }

    /// Install the fixed-offset mapping for one page, honoring `attr`.
    pub fn map(&self, pt: &mut PageTable, addr: usize, attr: MemoryAttr) -> (r: Result<
        (),
        MemoryError,
    >)
        requires
            addr + self.offset <= usize::MAX,
        ensures
            linear_map_post(old(pt)@, final(pt)@, self.offset, addr, attr, r),
    {
        if pt.contains(addr) {
            return Err(MemoryError::AlreadyMapped);
        }
        pt.install(addr, Some(addr + self.offset), attr);
        Ok(())
    }

    /// Remove the mapping of one page; no frame is released because none was
    /// ever charged against the allocator.
    pub fn unmap(&self, pt: &mut PageTable, addr: usize) -> (r: Result<(), MemoryError>)
        ensures
            linear_unmap_post(old(pt)@, final(pt)@, addr, r),
    {
        if !pt.contains(addr) {
            return Err(MemoryError::EntryNotFound);
        }
        pt.remove_mapping(addr);
        Ok(())
    }

    /// Nothing is deferred, so no fault on a linear page can be resolved.
    pub fn handle_page_fault(&self, pt: &mut PageTable, addr: usize) -> (r: bool)
        ensures
            r == false,
            final(pt)@ == old(pt)@,
    {
        false
    }

    /// An independent handler with the same offset for a second region.
    pub fn duplicate(&self) -> (r: Linear)
        ensures
            r.offset == self.offset,
    {
        Linear { offset: self.offset }
    }
}

} // verus!
