//! The lazily-allocated strategy: `map` records the attribute in a
//! not-present entry and charges nothing against the allocator; the first
//! fault on the page allocates its frame and makes the entry present;
//! further faults change nothing. `unmap` releases a frame if and only if
//! one was actually allocated.

use vstd::prelude::*;
use crate::attr::MemoryAttr;
use crate::error::MemoryError;
use crate::frame_alloc::FrameAllocator;
use crate::page_table::PageTable;
use crate::page_table::PageTableEntry;

verus! {

/// Exactly how `Lazy::map` changes the page table: a not-present entry with
/// no frame, carrying the requested attribute for the fault path to install
/// later. The free list is not a parameter because `map` never touches it.
pub open spec fn lazy_map_post(
    pt0: Map<usize, PageTableEntry>,
    pt1: Map<usize, PageTableEntry>,
    addr: usize,
    attr: MemoryAttr,
    r: Result<(), MemoryError>,
) -> bool {
    if pt0.contains_key(addr) {
        r == Err::<(), MemoryError>(MemoryError::AlreadyMapped) && pt1 == pt0
    } else {
        r == Ok::<(), MemoryError>(()) && pt1 == pt0.insert(
            addr,
            (PageTableEntry { frame: None, attr }),
        )
    }
}

/// Exactly how `Lazy::handle_page_fault` changes the page table and the free
/// list: a page never mapped declines; an already-resolved page succeeds and
/// changes nothing; an untouched page takes the last free frame under its
/// recorded attribute, or declines if the pool is exhausted.
pub open spec fn lazy_fault_post(
    pt0: Map<usize, PageTableEntry>,
    pt1: Map<usize, PageTableEntry>,
    free0: Seq<usize>,
    free1: Seq<usize>,
    addr: usize,
    r: bool,
) -> bool {
    if !pt0.contains_key(addr) {
        r == false && pt1 == pt0 && free1 == free0
    } else if pt0[addr].frame is Some {
        r == true && pt1 == pt0 && free1 == free0
    } else if free0.len() == 0 {
        r == false && pt1 == pt0 && free1 == free0
    } else {
        r == true && free1 == free0.drop_last() && pt1 == pt0.insert(
            addr,
            (PageTableEntry { frame: Some(free0.last()), attr: pt0[addr].attr }),
        )
    }
}

/// Exactly how `Lazy::unmap` changes the page table and the free list: the
/// frame is released if and only if one was allocated; a page never touched
/// causes no phantom deallocation.
pub open spec fn lazy_unmap_post(
    pt0: Map<usize, PageTableEntry>,
    pt1: Map<usize, PageTableEntry>,
    free0: Seq<usize>,
    free1: Seq<usize>,
    addr: usize,
    r: Result<(), MemoryError>,
) -> bool {
    if !pt0.contains_key(addr) {
        r == Err::<(), MemoryError>(MemoryError::EntryNotFound) && pt1 == pt0 && free1 == free0
    } else {
        match pt0[addr].frame {
            Some(f) => r == Ok::<(), MemoryError>(()) && pt1 == pt0.remove(addr) && free1
                == free0.push(f),
            None => r == Ok::<(), MemoryError>(()) && pt1 == pt0.remove(addr) && free1 == free0,
        }
    }
}

/// The lazily-allocated strategy. Its bookkeeping lives in the not-present
/// page-table entries it installs, so the handler itself carries no state.
#[derive(Clone, Copy, Debug)]
pub struct Lazy {}

impl Lazy {
    /// A fresh lazy handler, to be bound to one region.
    pub fn new() -> (r: Self) {
        Lazy {  }
    }

    /// Reserve bookkeeping for one page without allocating: the entry is
    /// installed not-present, with the attribute recorded for the fault path.
    pub fn map(&self, pt: &mut PageTable, addr: usize, attr: MemoryAttr) -> (r: Result<
        (),
        MemoryError,
    >)
        ensures
            lazy_map_post(old(pt)@, final(pt)@, addr, attr, r),
    {
        if pt.contains(addr) {
            return Err(MemoryError::AlreadyMapped);
        }
        pt.install(addr, None, attr);
        Ok(())
    }

    /// Resolve a fault by allocating the page's frame on first access;
    /// succeed without change on a page already resolved.
    pub fn handle_page_fault(
        &self,
        pt: &mut PageTable,
        allocator: &mut FrameAllocator,
        addr: usize,
    ) -> (r: bool)
        ensures
            lazy_fault_post(old(pt)@, final(pt)@, old(allocator)@, final(allocator)@, addr, r),
    {
        let entry = match pt.lookup(addr) {
            Some(e) => e,
            None => {
                return false;
            },
        };
        if entry.present() {
            return true;
        }
        let target = match allocator.allocate() {
            Ok(f) => f,
            Err(_) => {
                return false;
            },
        };
        pt.update(addr, Some(target), entry.attr);
        true
    }

    /// Tear the page's bookkeeping down, releasing a frame exactly when the
    /// fault path had allocated one.
    pub fn unmap(&self, pt: &mut PageTable, allocator: &mut FrameAllocator, addr: usize) -> (r:
        Result<(), MemoryError>)
        ensures
            lazy_unmap_post(old(pt)@, final(pt)@, old(allocator)@, final(allocator)@, addr, r),
    {
        let entry = match pt.lookup(addr) {
            Some(e) => e,
            None => {
                return Err(MemoryError::EntryNotFound);
            },
        };
        match entry.frame {
            Some(f) => allocator.free(f),
            None => (),
        }
        pt.remove_mapping(addr);
        Ok(())
    }

    /// An independent lazy handler for a second region; pages of the new
    /// region start untouched.
    pub fn duplicate(&self) -> (r: Lazy) {
        Lazy {  }
    }
}

/// Fault resolution is idempotent: once a fault on a page has been resolved,
/// a second fault on the same page reports success and changes neither the
/// page table nor the free list — no second frame is allocated, and the
/// first is not leaked.
pub proof fn lemma_lazy_fault_idempotent(
    pt0: Map<usize, PageTableEntry>,
    pt1: Map<usize, PageTableEntry>,
    pt2: Map<usize, PageTableEntry>,
    free0: Seq<usize>,
    free1: Seq<usize>,
    free2: Seq<usize>,
    addr: usize,
    r2: bool,
)
    requires
        lazy_fault_post(pt0, pt1, free0, free1, addr, true),
        lazy_fault_post(pt1, pt2, free1, free2, addr, r2),
    ensures
        r2 == true,
        pt2 == pt1,
        free2 == free1,
{
    assert(pt1.contains_key(addr));
    assert(pt1[addr].frame is Some);
}

} // verus!
