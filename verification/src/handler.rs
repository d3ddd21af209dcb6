//! The handler abstraction: one closed sum over the strategy family,
//! dispatched by pattern match. An address-space manager binds one
//! `MemoryHandler` to one region for the region's whole lifetime, calls
//! `map` and `unmap` per page, routes hardware faults to
//! `handle_page_fault`, and clones the region's handler with `duplicate` on
//! an address-space fork. Each arm's exact behaviour is the corresponding
//! strategy's post predicate; on top of that, `unmap` on an address without
//! an entry fails with `EntryNotFound` and changes nothing, whichever the
//! strategy — it never silently succeeds — and the linear strategy's
//! operations never change the allocator's free list.

use vstd::prelude::*;
use crate::attr::MemoryAttr;
use crate::byframe::ByFrame;
use crate::byframe::byframe_map_post;
use crate::byframe::byframe_unmap_post;
use crate::cow::CopyOnWrite;
use crate::cow::cow_duplicate_post;
use crate::cow::cow_fault_post;
use crate::cow::cow_frames_inv;
use crate::cow::cow_inv;
use crate::cow::cow_map_post;
use crate::cow::cow_pt_inv;
use crate::cow::cow_unmap_post;
use crate::error::MemoryError;
use crate::frame_alloc::FrameAllocator;
use crate::frame_alloc::RefCounts;
use crate::lazy::Lazy;
use crate::lazy::lazy_fault_post;
use crate::lazy::lazy_map_post;
use crate::lazy::lazy_unmap_post;
use crate::linear::Linear;
use crate::linear::linear_map_post;
use crate::linear::linear_unmap_post;
use crate::page_table::PageTable;
use crate::page_table::PageTableEntry;

verus! {

/// One handler of the strategy family, bound to one region.
pub enum MemoryHandler {
    ByFrame(ByFrame),
    Linear(Linear),
    Lazy(Lazy),
    CopyOnWrite(CopyOnWrite),
}

impl MemoryHandler {
    /// The handler's bookkeeping agrees with the page table and the
    /// reference counts. Only the copy-on-write strategy keeps bookkeeping
    /// of its own, so for the other strategies this is trivially true.
    pub open spec fn pt_inv(
        &self,
        pt: Map<usize, PageTableEntry>,
        refs: Map<usize, usize>,
    ) -> bool {
        match self {
            MemoryHandler::CopyOnWrite(c) => cow_pt_inv(c.pages_view(), pt, refs),
            _ => true,
        }
    }

    /// The handler's frames are owned, not free.
    pub open spec fn frames_inv(&self, free: Seq<usize>) -> bool {
        match self {
            MemoryHandler::CopyOnWrite(c) => cow_frames_inv(c.pages_view(), free),
            _ => true,
        }
    }

    /// Both pieces of the handler's well-formedness together.
    pub open spec fn inv(
        &self,
        pt: Map<usize, PageTableEntry>,
        free: Seq<usize>,
        refs: Map<usize, usize>,
    ) -> bool {
        self.pt_inv(pt, refs) && self.frames_inv(free)
    }

    /// For the linear strategy, the page's physical address must not wrap.
    pub open spec fn offset_ok(&self, addr: usize) -> bool {
        match self {
            MemoryHandler::Linear(b) => addr + b.offset <= usize::MAX,
            _ => true,
        }
    }

    /// What `duplicate` asks of the destination: the new region's pages are
    /// not yet mapped there, and the share counts have headroom.
    pub open spec fn duplicate_pre(
        &self,
        dst: Map<usize, PageTableEntry>,
        refs: Map<usize, usize>,
    ) -> bool {
        match self {
            MemoryHandler::CopyOnWrite(c) => forall|a: usize|
                #[trigger] c.pages_view().contains_key(a) ==> !dst.contains_key(a) && refs[
                    c.pages_view()[a].frame] < usize::MAX,
            _ => true,
        }
    }
}

/// Exactly how `MemoryHandler::map` behaves, by strategy. The strategies
/// that never touch the allocator or the share counts leave them unchanged.
pub open spec fn handler_map_post(
    h0: MemoryHandler,
    h1: MemoryHandler,
    pt0: Map<usize, PageTableEntry>,
    pt1: Map<usize, PageTableEntry>,
    free0: Seq<usize>,
    free1: Seq<usize>,
    refs0: Map<usize, usize>,
    refs1: Map<usize, usize>,
    addr: usize,
    attr: MemoryAttr,
    r: Result<(), MemoryError>,
) -> bool {
    match h0 {
        MemoryHandler::ByFrame(_) => h1 == h0 && refs1 == refs0 && byframe_map_post(
            pt0,
            pt1,
            free0,
            free1,
            addr,
            attr,
            r,
        ),
        MemoryHandler::Linear(b) => h1 == h0 && refs1 == refs0 && free1 == free0
            && linear_map_post(pt0, pt1, b.offset, addr, attr, r),
        MemoryHandler::Lazy(_) => h1 == h0 && refs1 == refs0 && free1 == free0 && lazy_map_post(
            pt0,
            pt1,
            addr,
            attr,
            r,
        ),
        MemoryHandler::CopyOnWrite(c0) => match h1 {
            MemoryHandler::CopyOnWrite(c1) => cow_map_post(
                c0.pages_view(),
                c1.pages_view(),
                pt0,
                pt1,
                free0,
                free1,
                refs0,
                refs1,
                addr,
                attr,
                r,
            ),
            _ => false,
        },
    }
}

/// Exactly how `MemoryHandler::unmap` behaves, by strategy.
pub open spec fn handler_unmap_post(
    h0: MemoryHandler,
    h1: MemoryHandler,
    pt0: Map<usize, PageTableEntry>,
    pt1: Map<usize, PageTableEntry>,
    free0: Seq<usize>,
    free1: Seq<usize>,
    refs0: Map<usize, usize>,
    refs1: Map<usize, usize>,
    addr: usize,
    r: Result<(), MemoryError>,
) -> bool {
    match h0 {
        MemoryHandler::ByFrame(_) => h1 == h0 && refs1 == refs0 && byframe_unmap_post(
            pt0,
            pt1,
            free0,
            free1,
            addr,
            r,
        ),
        MemoryHandler::Linear(_) => h1 == h0 && refs1 == refs0 && free1 == free0
            && linear_unmap_post(pt0, pt1, addr, r),
        MemoryHandler::Lazy(_) => h1 == h0 && refs1 == refs0 && lazy_unmap_post(
            pt0,
            pt1,
            free0,
            free1,
            addr,
            r,
        ),
        MemoryHandler::CopyOnWrite(c0) => match h1 {
            MemoryHandler::CopyOnWrite(c1) => cow_unmap_post(
                c0.pages_view(),
                c1.pages_view(),
                pt0,
                pt1,
                free0,
                free1,
                refs0,
                refs1,
                addr,
                r,
            ),
            _ => false,
        },
    }
}

/// Exactly how `MemoryHandler::handle_page_fault` behaves, by strategy:
/// the eager strategies decline every fault and change nothing.
pub open spec fn handler_fault_post(
    h0: MemoryHandler,
    h1: MemoryHandler,
    pt0: Map<usize, PageTableEntry>,
    pt1: Map<usize, PageTableEntry>,
    free0: Seq<usize>,
    free1: Seq<usize>,
    refs0: Map<usize, usize>,
    refs1: Map<usize, usize>,
    addr: usize,
    r: bool,
) -> bool {
    match h0 {
        MemoryHandler::ByFrame(_) => h1 == h0 && r == false && pt1 == pt0 && free1 == free0
            && refs1 == refs0,
        MemoryHandler::Linear(_) => h1 == h0 && r == false && pt1 == pt0 && free1 == free0
            && refs1 == refs0,
        MemoryHandler::Lazy(_) => h1 == h0 && refs1 == refs0 && lazy_fault_post(
            pt0,
            pt1,
            free0,
            free1,
            addr,
            r,
        ),
        MemoryHandler::CopyOnWrite(c0) => match h1 {
            MemoryHandler::CopyOnWrite(c1) => cow_fault_post(
                c0.pages_view(),
                c1.pages_view(),
                pt0,
                pt1,
                free0,
                free1,
                refs0,
                refs1,
                addr,
                r,
            ),
            _ => false,
        },
    }
}

/// Exactly how `MemoryHandler::duplicate` behaves, by strategy: the
/// stateless strategies hand back an equal handler and touch nothing; the
/// copy-on-write strategy shares its frames and downgrades both copies.
pub open spec fn handler_duplicate_post(
    h0: MemoryHandler,
    r: MemoryHandler,
    src0: Map<usize, PageTableEntry>,
    src1: Map<usize, PageTableEntry>,
    dst0: Map<usize, PageTableEntry>,
    dst1: Map<usize, PageTableEntry>,
    refs0: Map<usize, usize>,
    refs1: Map<usize, usize>,
) -> bool {
    match h0 {
        MemoryHandler::CopyOnWrite(c0) => match r {
            MemoryHandler::CopyOnWrite(c1) => c1.pages_view() == c0.pages_view()
                && cow_duplicate_post(c0.pages_view(), src0, src1, dst0, dst1, refs0, refs1),
            _ => false,
        },
        _ => r == h0 && src1 == src0 && dst1 == dst0 && refs1 == refs0,
    }
}

/// The linear strategy never involves the allocator: across any map and any
/// unmap through a linear handler — whatever the addresses, and whether the
/// calls succeed or fail — the free list, and so the allocator's free-frame
/// count, is exactly what it was.
pub proof fn lemma_linear_preserves_free_frames(
    h0: MemoryHandler,
    h1: MemoryHandler,
    h2: MemoryHandler,
    pt0: Map<usize, PageTableEntry>,
    pt1: Map<usize, PageTableEntry>,
    pt2: Map<usize, PageTableEntry>,
    free0: Seq<usize>,
    free1: Seq<usize>,
    free2: Seq<usize>,
    refs0: Map<usize, usize>,
    refs1: Map<usize, usize>,
    refs2: Map<usize, usize>,
    addr_m: usize,
    addr_u: usize,
    attr: MemoryAttr,
    rm: Result<(), MemoryError>,
    ru: Result<(), MemoryError>,
)
    requires
        h0 is Linear,
        handler_map_post(h0, h1, pt0, pt1, free0, free1, refs0, refs1, addr_m, attr, rm),
        handler_unmap_post(h1, h2, pt1, pt2, free1, free2, refs1, refs2, addr_u, ru),
    ensures
        free2 == free0,
        free2.len() == free0.len(),
{
}

impl MemoryHandler {
    /// Establish a mapping for one page of the handler's region, honoring
    /// `attr`, acquiring whatever backing the strategy calls for.
    pub fn map(
        &mut self,
        pt: &mut PageTable,
        allocator: &mut FrameAllocator,
        refs: &mut RefCounts,
        addr: usize,
        attr: MemoryAttr,
    ) -> (r: Result<(), MemoryError>)
        requires
            old(self).inv(old(pt)@, old(allocator)@, old(refs)@),
            old(self).offset_ok(addr),
        ensures
            final(self).inv(final(pt)@, final(allocator)@, final(refs)@),
            handler_map_post(
                *old(self),
                *final(self),
                old(pt)@,
                final(pt)@,
                old(allocator)@,
                final(allocator)@,
                old(refs)@,
                final(refs)@,
                addr,
                attr,
                r,
            ),
    {
        match self {
            MemoryHandler::ByFrame(h) => h.map(pt, allocator, addr, attr),
            MemoryHandler::Linear(h) => h.map(pt, addr, attr),
            MemoryHandler::Lazy(h) => h.map(pt, addr, attr),
            MemoryHandler::CopyOnWrite(h) => h.map(pt, allocator, refs, addr, attr),
        }
    }

    /// Remove the mapping of one page, releasing exactly what this
    /// handler's `map` acquired for it. On an address without an entry it
    /// fails with `EntryNotFound` and changes nothing — never a silent
    /// success — whichever the strategy.
    pub fn unmap(
        &mut self,
        pt: &mut PageTable,
        allocator: &mut FrameAllocator,
        refs: &mut RefCounts,
        addr: usize,
    ) -> (r: Result<(), MemoryError>)
        requires
            old(self).inv(old(pt)@, old(allocator)@, old(refs)@),
        ensures
            final(self).inv(final(pt)@, final(allocator)@, final(refs)@),
            handler_unmap_post(
                *old(self),
                *final(self),
                old(pt)@,
                final(pt)@,
                old(allocator)@,
                final(allocator)@,
                old(refs)@,
                final(refs)@,
                addr,
                r,
            ),
            !old(pt)@.contains_key(addr) ==> r == Err::<(), MemoryError>(MemoryError::EntryNotFound)
                && final(pt)@ == old(pt)@ && final(allocator)@ == old(allocator)@ && final(refs)@
                == old(refs)@,
    {
        match self {
            MemoryHandler::ByFrame(h) => h.unmap(pt, allocator, addr),
            MemoryHandler::Linear(h) => h.unmap(pt, addr),
            MemoryHandler::Lazy(h) => h.unmap(pt, allocator, addr),
            MemoryHandler::CopyOnWrite(h) => h.unmap(pt, allocator, refs, addr),
        }
    }

    /// Resolve a hardware fault on one page of the region, or decline:
    /// `false` propagates to the dispatcher as an unresolved fault.
    pub fn handle_page_fault(
        &mut self,
        pt: &mut PageTable,
        allocator: &mut FrameAllocator,
        refs: &mut RefCounts,
        addr: usize,
    ) -> (r: bool)
        requires
            old(self).inv(old(pt)@, old(allocator)@, old(refs)@),
        ensures
            final(self).inv(final(pt)@, final(allocator)@, final(refs)@),
            handler_fault_post(
                *old(self),
                *final(self),
                old(pt)@,
                final(pt)@,
                old(allocator)@,
                final(allocator)@,
                old(refs)@,
                final(refs)@,
                addr,
                r,
            ),
    {
        match self {
            MemoryHandler::ByFrame(h) => h.handle_page_fault(pt, addr),
            MemoryHandler::Linear(h) => h.handle_page_fault(pt, addr),
            MemoryHandler::Lazy(h) => h.handle_page_fault(pt, allocator, addr),
            MemoryHandler::CopyOnWrite(h) => h.handle_page_fault(pt, allocator, refs, addr),
        }
    }

    /// An independent handler for a second, logically distinct region, as
    /// on an address-space fork; the source handler's bookkeeping is not
    /// corrupted.
    pub fn duplicate(
        &self,
        src_pt: &mut PageTable,
        dst_pt: &mut PageTable,
        refs: &mut RefCounts,
    ) -> (r: MemoryHandler)
        requires
            self.pt_inv(old(src_pt)@, old(refs)@),
            self.duplicate_pre(old(dst_pt)@, old(refs)@),
        ensures
            handler_duplicate_post(
                *self,
                r,
                old(src_pt)@,
                final(src_pt)@,
                old(dst_pt)@,
                final(dst_pt)@,
                old(refs)@,
                final(refs)@,
            ),
            self.pt_inv(final(src_pt)@, final(refs)@),
            r.pt_inv(final(dst_pt)@, final(refs)@),
    {
        match self {
            MemoryHandler::ByFrame(h) => MemoryHandler::ByFrame(h.duplicate()),
            MemoryHandler::Linear(h) => MemoryHandler::Linear(h.duplicate()),
            MemoryHandler::Lazy(h) => MemoryHandler::Lazy(h.duplicate()),
            MemoryHandler::CopyOnWrite(h) => MemoryHandler::CopyOnWrite(
                h.duplicate(src_pt, dst_pt, refs),
            ),
        }
    }
}

} // verus!
