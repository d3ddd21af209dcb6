//! The eager frame-backed strategy: one physical frame per page, allocated
//! at `map` time; `unmap` returns exactly that frame to the pool. Faults are
//! never resolvable — this strategy defers nothing, so a fault on one of its
//! pages is a permission violation or a hole, and must propagate.

use vstd::prelude::*;
use crate::attr::MemoryAttr;
use crate::error::MemoryError;
use crate::frame_alloc::FrameAllocator;
use crate::page_table::PageTable;
use crate::page_table::PageTableEntry;

verus! {

/// Exactly how `ByFrame::map` changes the page table and the free list:
/// a mapped page is reported as a caller bug; an exhausted pool is reported
/// and nothing changes; otherwise the last free frame backs the new entry.
pub open spec fn byframe_map_post(
    pt0: Map<usize, PageTableEntry>,
    pt1: Map<usize, PageTableEntry>,
    free0: Seq<usize>,
    free1: Seq<usize>,
    addr: usize,
    attr: MemoryAttr,
    r: Result<(), MemoryError>,
) -> bool {
    if pt0.contains_key(addr) {
        r == Err::<(), MemoryError>(MemoryError::AlreadyMapped) && pt1 == pt0 && free1 == free0
    } else if free0.len() == 0 {
        r == Err::<(), MemoryError>(MemoryError::NoFramesAvailable) && pt1 == pt0 && free1
            == free0
    } else {
        r == Ok::<(), MemoryError>(()) && free1 == free0.drop_last() && pt1 == pt0.insert(
            addr,
            (PageTableEntry { frame: Some(free0.last()), attr }),
        )
    }
}

/// Exactly how `ByFrame::unmap` changes the page table and the free list:
/// an address without a frame-backed entry is reported as `EntryNotFound`
/// and nothing changes; otherwise the entry's frame returns to the pool and
/// the entry goes away.
pub open spec fn byframe_unmap_post(
    pt0: Map<usize, PageTableEntry>,
    pt1: Map<usize, PageTableEntry>,
    free0: Seq<usize>,
    free1: Seq<usize>,
    addr: usize,
    r: Result<(), MemoryError>,
) -> bool {
    if !pt0.contains_key(addr) || pt0[addr].frame is None {
        r == Err::<(), MemoryError>(MemoryError::EntryNotFound) && pt1 == pt0 && free1 == free0
    } else {
        match pt0[addr].frame {
            Some(f) => r == Ok::<(), MemoryError>(()) && pt1 == pt0.remove(addr) && free1
                == free0.push(f),
            None => false,
        }
    }
}

/// The eager one-frame-per-page strategy. It keeps no state of its own: the
/// page table holds its entries, the allocator its accounting.
#[derive(Clone, Copy, Debug)]
pub struct ByFrame {}

impl ByFrame {
    /// A fresh frame-backed handler, to be bound to one region.
    pub fn new() -> (r: Self) {
        ByFrame {  }
    }

    /// Establish a frame-backed mapping for one page, honoring `attr`.
    pub fn map(
        &self,
        pt: &mut PageTable,
        allocator: &mut FrameAllocator,
        addr: usize,
        attr: MemoryAttr,
    ) -> (r: Result<(), MemoryError>)
        ensures
            byframe_map_post(old(pt)@, final(pt)@, old(allocator)@, final(allocator)@, addr, attr, r),
    {
        if pt.contains(addr) {
            return Err(MemoryError::AlreadyMapped);
        }
        let target = match allocator.allocate() {
            Ok(f) => f,
            Err(e) => {
                return Err(e);
            },
        };
        pt.install(addr, Some(target), attr);
        Ok(())
    }

    /// Tear the mapping of one page down, returning its frame to the pool.
    pub fn unmap(&self, pt: &mut PageTable, allocator: &mut FrameAllocator, addr: usize) -> (r:
        Result<(), MemoryError>)
        ensures
            byframe_unmap_post(old(pt)@, final(pt)@, old(allocator)@, final(allocator)@, addr, r),
    {
        let entry = match pt.lookup(addr) {
            Some(e) => e,
            None => {
                return Err(MemoryError::EntryNotFound);
            },
        };
        let target = match entry.frame {
            Some(f) => f,
            None => {
                return Err(MemoryError::EntryNotFound);
            },
        };
        allocator.free(target);
        pt.remove_mapping(addr);
        Ok(())
    }

    /// This strategy never defers work, so no fault on its pages can be
    /// resolved; the dispatcher must escalate.
    pub fn handle_page_fault(&self, pt: &mut PageTable, addr: usize) -> (r: bool)
        ensures
            r == false,
            final(pt)@ == old(pt)@,
    {
        false
    }

    /// An independent handler for a second region. The strategy carries no
    /// bookkeeping, so nothing is shared and nothing can be corrupted.
    pub fn duplicate(&self) -> (r: ByFrame) {
        ByFrame {  }
    }
}

/// Round-trip conservation: mapping a page and then unmapping it returns the
/// allocator to its pre-map state — the same free list, so in particular the
/// same free-frame count — and the page table to its pre-map state.
pub proof fn lemma_byframe_map_unmap_roundtrip(
    pt0: Map<usize, PageTableEntry>,
    pt1: Map<usize, PageTableEntry>,
    pt2: Map<usize, PageTableEntry>,
    free0: Seq<usize>,
    free1: Seq<usize>,
    free2: Seq<usize>,
    addr: usize,
    attr: MemoryAttr,
    r2: Result<(), MemoryError>,
)
    requires
        byframe_map_post(pt0, pt1, free0, free1, addr, attr, Ok(())),
        byframe_unmap_post(pt1, pt2, free1, free2, addr, r2),
    ensures
        r2 == Ok::<(), MemoryError>(()),
        free2 == free0,
        free2.len() == free0.len(),
        pt2 == pt0,
{
    assert(pt1.contains_key(addr));
    assert(free2 =~= free0);
    assert(pt2 =~= pt0);
}

} // verus!
