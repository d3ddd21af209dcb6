//! The copy-on-write strategy. `duplicate` shares the existing frames
//! between the source and the new handler under reference counts and marks
//! both copies read-only; a write fault then either restores write
//! permission in place (sole owner) or moves the faulting page onto a fresh
//! frame and lets go of one share of the old one. The byte copy from the
//! shared frame into the fresh one happens on the physical frames
//! themselves and is outside this model; what is specified is exactly how
//! the bookkeeping — page table, free list, reference counts — moves.

use vstd::prelude::*;
use crate::attr::MemoryAttr;
use crate::error::MemoryError;
use crate::frame_alloc::FrameAllocator;
use crate::frame_alloc::RefCounts;
use crate::page_table::PageTable;
use crate::page_table::PageTableEntry;
use crate::keymap::KeyMap;
use crate::keymap::keys_unique;

verus! {

/// What the handler records for one of its pages: the backing frame, and
/// the attribute the caller originally requested — write permission
/// included — which the write-fault path restores.
#[derive(Clone, Copy, Debug, PartialEq, Eq)]
pub struct CowPage {
    pub frame: usize,
    pub attr: MemoryAttr,
}

// Small facts about membership in pushed and truncated sequences, used to
// track which frames are and are not in the free pool.
proof fn lemma_push_contains<T>(s: Seq<T>, x: T, y: T)
    ensures
        s.push(x).contains(y) <==> (s.contains(y) || y == x),
{
    if s.push(x).contains(y) {
        let i = choose|i: int| 0 <= i < s.push(x).len() && s.push(x)[i] == y;
        if i < s.len() {
            assert(s[i] == y);
        }
    }
    if s.contains(y) {
        let i = choose|i: int| 0 <= i < s.len() && s[i] == y;
        assert(s.push(x)[i] == y);
    }
    if y == x {
        assert(s.push(x)[s.len() as int] == y);
    }
}

proof fn lemma_drop_last_contains<T>(s: Seq<T>, y: T)
    requires
        s.len() > 0,
        s.drop_last().contains(y),
    ensures
        s.contains(y),
{
    let i = choose|i: int| 0 <= i < s.drop_last().len() && s.drop_last()[i] == y;
    assert(s[i] == y);
}

proof fn lemma_no_dup_drop_last<T>(s: Seq<T>)
    requires
        s.len() > 0,
        s.no_duplicates(),
    ensures
        s.drop_last().no_duplicates(),
        !s.drop_last().contains(s.last()),
{
    if s.drop_last().contains(s.last()) {
        let i = choose|i: int| 0 <= i < s.drop_last().len() && s.drop_last()[i] == s.last();
        assert(s[i] == s[s.len() - 1]);
    }
}

proof fn lemma_no_dup_push<T>(s: Seq<T>, x: T)
    requires
        s.no_duplicates(),
        !s.contains(x),
    ensures
        s.push(x).no_duplicates(),
{
    assert forall|i: int, j: int|
        0 <= i < s.push(x).len() && 0 <= j < s.push(x).len() && i != j implies s.push(x)[i] != s
        .push(x)[j] by {
        if i < s.len() && j < s.len() {
        } else if j == s.len() {
            assert(s.push(x)[j] == x);
            if s.push(x)[i] == x {
                assert(s[i] == x);
            }
        } else {
            assert(s.push(x)[i] == x);
            if s.push(x)[j] == x {
                assert(s[j] == x);
            }
        }
    }
}

/// Whether some page of the handler is backed by the frame.
pub open spec fn is_page_frame(pg: Map<usize, CowPage>, f: usize) -> bool {
    exists|a: usize| #[trigger] pg.contains_key(a) && pg[a].frame == f
}

/// The handler's bookkeeping agrees with the page table and the reference
/// counts: each of its pages has an entry backed by its recorded frame, each
/// such frame is tracked with at least one owner, and no two pages of one
/// handler share a frame.
pub open spec fn cow_pt_inv(
    pg: Map<usize, CowPage>,
    pt: Map<usize, PageTableEntry>,
    refs: Map<usize, usize>,
) -> bool {
    &&& forall|a: usize| #[trigger] pg.contains_key(a) ==> {
        &&& pt.contains_key(a)
        &&& pt[a].frame == Some(pg[a].frame)
        &&& refs.contains_key(pg[a].frame)
        &&& refs[pg[a].frame] >= 1
    }
    &&& forall|a1: usize, a2: usize|
        #[trigger] pg.contains_key(a1) && #[trigger] pg.contains_key(a2) && a1 != a2
            ==> pg[a1].frame != pg[a2].frame
}

/// The handler's frames are owned, not free: none of them is in the pool,
/// and the pool holds no frame twice, so a freshly allocated frame is never
/// one the handler already owns.
pub open spec fn cow_frames_inv(pg: Map<usize, CowPage>, free: Seq<usize>) -> bool {
    &&& forall|a: usize| #[trigger] pg.contains_key(a) ==> !free.contains(pg[a].frame)
    &&& free.no_duplicates()
}

/// Both pieces of the handler's well-formedness together.
pub open spec fn cow_inv(
    pg: Map<usize, CowPage>,
    pt: Map<usize, PageTableEntry>,
    free: Seq<usize>,
    refs: Map<usize, usize>,
) -> bool {
    cow_pt_inv(pg, pt, refs) && cow_frames_inv(pg, free)
}

/// Exactly how `CopyOnWrite::map` changes the bookkeeping: the new page is
/// backed by the last free frame, installed with the requested attribute,
/// and tracked with a single owner.
pub open spec fn cow_map_post(
    pg0: Map<usize, CowPage>,
    pg1: Map<usize, CowPage>,
    pt0: Map<usize, PageTableEntry>,
    pt1: Map<usize, PageTableEntry>,
    free0: Seq<usize>,
    free1: Seq<usize>,
    refs0: Map<usize, usize>,
    refs1: Map<usize, usize>,
    addr: usize,
    attr: MemoryAttr,
    r: Result<(), MemoryError>,
) -> bool {
    if pt0.contains_key(addr) {
        r == Err::<(), MemoryError>(MemoryError::AlreadyMapped) && pg1 == pg0 && pt1 == pt0
            && free1 == free0 && refs1 == refs0
    } else if free0.len() == 0 {
        r == Err::<(), MemoryError>(MemoryError::NoFramesAvailable) && pg1 == pg0 && pt1 == pt0
            && free1 == free0 && refs1 == refs0
    } else {
        r == Ok::<(), MemoryError>(()) && free1 == free0.drop_last() && pg1 == pg0.insert(
            addr,
            (CowPage { frame: free0.last(), attr }),
        ) && pt1 == pt0.insert(addr, (PageTableEntry { frame: Some(free0.last()), attr }))
            && refs1 == refs0.insert(free0.last(), 1)
    }
}

/// Exactly how `CopyOnWrite::unmap` changes the bookkeeping: the page and
/// its entry go away; the frame returns to the pool if and only if this
/// handler was its last owner, otherwise one share is let go.
pub open spec fn cow_unmap_post(
    pg0: Map<usize, CowPage>,
    pg1: Map<usize, CowPage>,
    pt0: Map<usize, PageTableEntry>,
    pt1: Map<usize, PageTableEntry>,
    free0: Seq<usize>,
    free1: Seq<usize>,
    refs0: Map<usize, usize>,
    refs1: Map<usize, usize>,
    addr: usize,
    r: Result<(), MemoryError>,
) -> bool {
    if !pg0.contains_key(addr) {
        r == Err::<(), MemoryError>(MemoryError::EntryNotFound) && pg1 == pg0 && pt1 == pt0
            && free1 == free0 && refs1 == refs0
    } else {
        let f = pg0[addr].frame;
        &&& r == Ok::<(), MemoryError>(())
        &&& pg1 == pg0.remove(addr)
        &&& pt1 == pt0.remove(addr)
        &&& if refs0[f] == 1 {
            free1 == free0.push(f) && refs1 == refs0.remove(f)
        } else {
            free1 == free0 && refs1 == refs0.insert(f, (refs0[f] - 1) as usize)
        }
    }
}

/// Exactly how `CopyOnWrite::handle_page_fault` changes the bookkeeping on
/// a write fault: a page not this handler's, or one whose requested
/// attribute never allowed writing, declines; a solely-owned frame gets its
/// write permission restored in place; a shared frame is left to its other
/// owners — one share let go, nothing freed — and the page moves onto the
/// last free frame with the requested attribute.
pub open spec fn cow_fault_post(
    pg0: Map<usize, CowPage>,
    pg1: Map<usize, CowPage>,
    pt0: Map<usize, PageTableEntry>,
    pt1: Map<usize, PageTableEntry>,
    free0: Seq<usize>,
    free1: Seq<usize>,
    refs0: Map<usize, usize>,
    refs1: Map<usize, usize>,
    addr: usize,
    r: bool,
) -> bool {
    if !pg0.contains_key(addr) || !pg0[addr].attr.writable {
        r == false && pg1 == pg0 && pt1 == pt0 && free1 == free0 && refs1 == refs0
    } else {
        let f = pg0[addr].frame;
        let attr = pg0[addr].attr;
        if refs0[f] == 1 {
            r == true && pg1 == pg0 && free1 == free0 && refs1 == refs0 && pt1 == pt0.insert(
                addr,
                (PageTableEntry { frame: Some(f), attr }),
            )
        } else if free0.len() == 0 {
            r == false && pg1 == pg0 && pt1 == pt0 && free1 == free0 && refs1 == refs0
        } else {
            let nf = free0.last();
            &&& r == true
            &&& free1 == free0.drop_last()
            &&& pg1 == pg0.insert(addr, (CowPage { frame: nf, attr }))
            &&& pt1 == pt0.insert(addr, (PageTableEntry { frame: Some(nf), attr }))
            &&& refs1 == refs0.insert(f, (refs0[f] - 1) as usize).insert(nf, 1)
        }
    }
}

/// The read-only entry with which a shared page stands in both page tables
/// after `duplicate`: the recorded frame, the requested attribute with
/// write permission withdrawn.
pub open spec fn cow_entry_shared(p: CowPage) -> PageTableEntry {
    PageTableEntry { frame: Some(p.frame), attr: p.attr.spec_read_only() }
}

/// Whether one of the first `i` pairs carries the key.
pub open spec fn key_in_prefix(sq: Seq<(usize, CowPage)>, i: int, a: usize) -> bool {
    exists|j: int| 0 <= j < i && (#[trigger] sq[j]).0 == a
}

/// Exactly how `CopyOnWrite::duplicate` changes the bookkeeping: every page
/// of the handler stands read-only in both page tables, backed by the same
/// frame as before, with one more owner on its count; everything else —
/// other entries of either table, counts of other frames — is untouched.
pub open spec fn cow_duplicate_post(
    pg: Map<usize, CowPage>,
    src0: Map<usize, PageTableEntry>,
    src1: Map<usize, PageTableEntry>,
    dst0: Map<usize, PageTableEntry>,
    dst1: Map<usize, PageTableEntry>,
    refs0: Map<usize, usize>,
    refs1: Map<usize, usize>,
) -> bool {
    &&& forall|a: usize| #[trigger] src1.contains_key(a) <==> src0.contains_key(a)
    &&& forall|a: usize| #[trigger] pg.contains_key(a) ==> src1[a] == cow_entry_shared(pg[a])
    &&& forall|a: usize|
        src0.contains_key(a) && !pg.contains_key(a) ==> #[trigger] src1[a] == src0[a]
    &&& forall|a: usize|
        #[trigger] dst1.contains_key(a) <==> (dst0.contains_key(a) || pg.contains_key(a))
    &&& forall|a: usize| #[trigger] pg.contains_key(a) ==> dst1[a] == cow_entry_shared(pg[a])
    &&& forall|a: usize|
        dst0.contains_key(a) && !pg.contains_key(a) ==> #[trigger] dst1[a] == dst0[a]
    &&& forall|f: usize| #[trigger] refs1.contains_key(f) <==> refs0.contains_key(f)
    &&& forall|a: usize|
        #[trigger] pg.contains_key(a) ==> refs1[pg[a].frame] == refs0[pg[a].frame] + 1
    &&& forall|f: usize|
        refs0.contains_key(f) && !is_page_frame(pg, f) ==> #[trigger] refs1[f] == refs0[f]
}

/// The copy-on-write strategy. Unlike the eager strategies it must remember
/// its pages itself: after a fork the same frame backs two regions, and only
/// the handler knows which frame it owes an unmap for and which attribute
/// the caller originally asked for.
pub struct CopyOnWrite {
    pages: KeyMap<CowPage>,
}

impl CopyOnWrite {
    /// The handler's bookkeeping: its pages, each with frame and requested
    /// attribute.
    pub closed spec fn pages_view(&self) -> Map<usize, CowPage> {
        self.pages@
    }

    /// A fresh copy-on-write handler with no pages.
    pub fn new() -> (r: Self)
        ensures
            r.pages_view() == Map::<usize, CowPage>::empty(),
    {
        CopyOnWrite { pages: KeyMap::new() }
    }

    /// Establish a mapping for one page, honoring `attr`: a fresh frame,
    /// owned by this handler alone.
    pub fn map(
        &mut self,
        pt: &mut PageTable,
        allocator: &mut FrameAllocator,
        refs: &mut RefCounts,
        addr: usize,
        attr: MemoryAttr,
    ) -> (r: Result<(), MemoryError>)
        requires
            cow_inv(old(self).pages_view(), old(pt)@, old(allocator)@, old(refs)@),
        ensures
            cow_inv(final(self).pages_view(), final(pt)@, final(allocator)@, final(refs)@),
            cow_map_post(
                old(self).pages_view(),
                final(self).pages_view(),
                old(pt)@,
                final(pt)@,
                old(allocator)@,
                final(allocator)@,
                old(refs)@,
                final(refs)@,
                addr,
                attr,
                r,
            ),
    {
        if pt.contains(addr) {
            return Err(MemoryError::AlreadyMapped);
        }
        let target = match allocator.allocate() {
            Ok(f) => f,
            Err(e) => {
                return Err(e);
            },
        };
        proof {
            lemma_no_dup_drop_last(old(allocator)@);
            assert(old(allocator)@.contains(old(allocator)@.last())) by {
                assert(old(allocator)@[old(allocator)@.len() - 1] == old(allocator)@.last());
            }
            assert forall|a: usize| old(self).pages_view().contains_key(a)
                implies !allocator@.contains(old(self).pages_view()[a].frame) by {
                if allocator@.contains(old(self).pages_view()[a].frame) {
                    lemma_drop_last_contains(old(allocator)@, old(self).pages_view()[a].frame);
                }
            }
        }
        refs.set_count(target, 1);
        pt.install(addr, Some(target), attr);
        self.pages.insert(addr, CowPage { frame: target, attr });
        Ok(())
    }

    /// Tear the mapping of one page down, releasing its frame exactly when
    /// this handler was the frame's last owner.
    pub fn unmap(
        &mut self,
        pt: &mut PageTable,
        allocator: &mut FrameAllocator,
        refs: &mut RefCounts,
        addr: usize,
    ) -> (r: Result<(), MemoryError>)
        requires
            cow_inv(old(self).pages_view(), old(pt)@, old(allocator)@, old(refs)@),
        ensures
            cow_inv(final(self).pages_view(), final(pt)@, final(allocator)@, final(refs)@),
            cow_unmap_post(
                old(self).pages_view(),
                final(self).pages_view(),
                old(pt)@,
                final(pt)@,
                old(allocator)@,
                final(allocator)@,
                old(refs)@,
                final(refs)@,
                addr,
                r,
            ),
    {
        let page = match self.pages.get(addr) {
            Some(p) => p,
            None => {
                return Err(MemoryError::EntryNotFound);
            },
        };
        let rc = refs.count(page.frame);
        if rc == 1 {
            refs.dec_or_remove(page.frame);
            allocator.free(page.frame);
            proof {
                lemma_no_dup_push(old(allocator)@, page.frame);
                assert forall|a: usize|
                    old(self).pages_view().contains_key(a) && a != addr implies !allocator@
                    .contains(old(self).pages_view()[a].frame) by {
                    assert(old(self).pages_view()[a].frame != page.frame);
                    lemma_push_contains(
                        old(allocator)@,
                        page.frame,
                        old(self).pages_view()[a].frame,
                    );
                }
            }
        } else {
            refs.dec_or_remove(page.frame);
        }
        pt.remove_mapping(addr);
        self.pages.remove(addr);
        Ok(())
    }

    /// Resolve a write fault: restore write permission in place when this
    /// handler owns the frame alone; otherwise move the page onto a fresh
    /// frame (the bytes are copied on the frames themselves) and let one
    /// share of the old frame go. A write fault on a page whose requested
    /// attribute never allowed writing is a permission violation and
    /// declines; so does exhaustion of the pool.
    pub fn handle_page_fault(
        &mut self,
        pt: &mut PageTable,
        allocator: &mut FrameAllocator,
        refs: &mut RefCounts,
        addr: usize,
    ) -> (r: bool)
        requires
            cow_inv(old(self).pages_view(), old(pt)@, old(allocator)@, old(refs)@),
        ensures
            cow_inv(final(self).pages_view(), final(pt)@, final(allocator)@, final(refs)@),
            cow_fault_post(
                old(self).pages_view(),
                final(self).pages_view(),
                old(pt)@,
                final(pt)@,
                old(allocator)@,
                final(allocator)@,
                old(refs)@,
                final(refs)@,
                addr,
                r,
            ),
    {
        let page = match self.pages.get(addr) {
            Some(p) => p,
            None => {
                return false;
            },
        };
        if !page.attr.writable {
            return false;
        }
        let rc = refs.count(page.frame);
        if rc == 1 {
            pt.update(addr, Some(page.frame), page.attr);
            return true;
        }
        let target = match allocator.allocate() {
            Ok(f) => f,
            Err(_) => {
                return false;
            },
        };
        proof {
            lemma_no_dup_drop_last(old(allocator)@);
            assert(old(allocator)@.contains(old(allocator)@.last())) by {
                assert(old(allocator)@[old(allocator)@.len() - 1] == old(allocator)@.last());
            }
            assert forall|a: usize| old(self).pages_view().contains_key(a) implies !allocator@
                .contains(old(self).pages_view()[a].frame) by {
                if allocator@.contains(old(self).pages_view()[a].frame) {
                    lemma_drop_last_contains(old(allocator)@, old(self).pages_view()[a].frame);
                }
            }
        }
        refs.dec_or_remove(page.frame);
        refs.set_count(target, 1);
        pt.update(addr, Some(target), page.attr);
        self.pages.set_value(addr, CowPage { frame: target, attr: page.attr });
        true
    }

    /// An independent handler for a second, logically distinct region: every
    /// page's frame is shared with the new handler — one more owner on its
    /// count, no frame duplicated — and both copies are made read-only, so
    /// that the first write to either faults and diverges. The source
    /// handler's bookkeeping is untouched.
    pub fn duplicate(
        &self,
        src_pt: &mut PageTable,
        dst_pt: &mut PageTable,
        refs: &mut RefCounts,
    ) -> (r: CopyOnWrite)
        requires
            cow_pt_inv(self.pages_view(), old(src_pt)@, old(refs)@),
            forall|a: usize|
                #[trigger] self.pages_view().contains_key(a) ==> !old(dst_pt)@.contains_key(a),
            forall|a: usize|
                #[trigger] self.pages_view().contains_key(a)
                    ==> old(refs)@[self.pages_view()[a].frame] < usize::MAX,
        ensures
            r.pages_view() == self.pages_view(),
            cow_duplicate_post(
                self.pages_view(),
                old(src_pt)@,
                final(src_pt)@,
                old(dst_pt)@,
                final(dst_pt)@,
                old(refs)@,
                final(refs)@,
            ),
            cow_pt_inv(self.pages_view(), final(src_pt)@, final(refs)@),
            cow_pt_inv(r.pages_view(), final(dst_pt)@, final(refs)@),
    {
        proof {
            use_type_invariant(&self.pages);
            self.pages.lemma_view();
        }
        let ghost pg = self.pages_view();
        let ghost sq = self.pages.pairs_view();
        let n: usize = self.pages.num_pairs();
        let mut i: usize = 0;
        while i < n
            invariant
                0 <= i <= n,
                n == sq.len(),
                sq == self.pages.pairs_view(),
                pg == self.pages_view(),
                keys_unique(sq),
                forall|j: int|
                    0 <= j < sq.len() ==> pg.contains_key((#[trigger] sq[j]).0) && pg[(sq[j]).0]
                        == (sq[j]).1,
                forall|k: usize|
                    #[trigger] pg.contains_key(k) ==> exists|j: int|
                        0 <= j < sq.len() && (#[trigger] sq[j]).0 == k,
                cow_pt_inv(pg, old(src_pt)@, old(refs)@),
                forall|a: usize| #[trigger] pg.contains_key(a) ==> !old(dst_pt)@.contains_key(a),
                forall|a: usize|
                    #[trigger] pg.contains_key(a) ==> old(refs)@[pg[a].frame] < usize::MAX,
                forall|a: usize| #[trigger] src_pt@.contains_key(a) <==> old(src_pt)@.contains_key(
                    a,
                ),
                forall|j: int|
                    0 <= j < i ==> src_pt@[(#[trigger] sq[j]).0] == cow_entry_shared((sq[j]).1),
                forall|j: int|
                    i <= j < sq.len() ==> src_pt@[(#[trigger] sq[j]).0] == old(src_pt)@[(sq[j]).0],
                forall|a: usize|
                    old(src_pt)@.contains_key(a) && !pg.contains_key(a) ==> #[trigger] src_pt@[a]
                        == old(src_pt)@[a],
                forall|a: usize|
                    #[trigger] dst_pt@.contains_key(a) <==> (old(dst_pt)@.contains_key(a)
                        || key_in_prefix(sq, i as int, a)),
                forall|j: int|
                    0 <= j < i ==> dst_pt@[(#[trigger] sq[j]).0] == cow_entry_shared((sq[j]).1),
                forall|a: usize|
                    old(dst_pt)@.contains_key(a) ==> #[trigger] dst_pt@[a] == old(dst_pt)@[a],
                forall|f: usize| #[trigger] refs@.contains_key(f) <==> old(refs)@.contains_key(f),
                forall|j: int|
                    0 <= j < i ==> refs@[(#[trigger] sq[j]).1.frame] == old(refs)@[(
                    sq[j]).1.frame] + 1,
                forall|j: int|
                    i <= j < sq.len() ==> refs@[(#[trigger] sq[j]).1.frame] == old(refs)@[(
                    sq[j]).1.frame],
                forall|f: usize|
                    old(refs)@.contains_key(f) && !is_page_frame(pg, f) ==> #[trigger] refs@[f]
                        == old(refs)@[f],
            decreases n - i,
        {
            let (a, p) = self.pages.pair_at(i);
            proof {
                assert(pg.contains_key(a) && pg[a] == p);
                assert(refs@.contains_key(p.frame));
                assert(refs@[p.frame] == old(refs)@[p.frame]);
                assert(!key_in_prefix(sq, i as int, a)) by {
                    if key_in_prefix(sq, i as int, a) {
                        let j = choose|j: int| 0 <= j < i && (#[trigger] sq[j]).0 == a;
                        assert((sq[j]).0 != (sq[i as int]).0);
                    }
                }
            }
            refs.inc(p.frame);
            src_pt.update(a, Some(p.frame), p.attr.read_only());
            dst_pt.install(a, Some(p.frame), p.attr.read_only());
            proof {
                let i0 = i as int;
                assert forall|j: int| 0 <= j < i0 + 1 implies src_pt@[(#[trigger] sq[j]).0]
                    == cow_entry_shared((sq[j]).1) by {
                    if j < i0 {
                        assert((sq[j]).0 != a);
                    }
                }
                assert forall|j: int| i0 + 1 <= j < sq.len() implies src_pt@[(#[trigger] sq[j]).0]
                    == old(src_pt)@[(sq[j]).0] by {
                    assert((sq[j]).0 != a);
                }
                assert forall|j: int| 0 <= j < i0 + 1 implies refs@[(#[trigger] sq[j]).1.frame]
                    == old(refs)@[(sq[j]).1.frame] + 1 by {
                    if j < i0 {
                        assert((sq[j]).0 != a);
                        assert(pg[(sq[j]).0].frame != pg[a].frame);
                    }
                }
                assert forall|j: int| i0 + 1 <= j < sq.len() implies refs@[(
                #[trigger] sq[j]).1.frame] == old(refs)@[(sq[j]).1.frame] by {
                    assert((sq[j]).0 != a);
                    assert(pg[(sq[j]).0].frame != pg[a].frame);
                }
                assert forall|f: usize|
                    old(refs)@.contains_key(f) && !is_page_frame(pg, f) implies #[trigger] refs@[f]
                    == old(refs)@[f] by {
                    assert(pg.contains_key(a) && pg[a].frame == p.frame);
                    assert(f != p.frame);
                }
                assert forall|a2: usize| #[trigger] dst_pt@.contains_key(a2) <==> (old(
                    dst_pt,
                )@.contains_key(a2) || key_in_prefix(sq, i0 + 1, a2)) by {
                    if dst_pt@.contains_key(a2) {
                        if a2 == a {
                            assert((sq[i0]).0 == a2);
                            assert(key_in_prefix(sq, i0 + 1, a2));
                        } else {
                            if key_in_prefix(sq, i0, a2) {
                                let j = choose|j: int| 0 <= j < i0 && (#[trigger] sq[j]).0 == a2;
                                assert(0 <= j < i0 + 1 && (sq[j]).0 == a2);
                            }
                        }
                    } else {
                        assert(!key_in_prefix(sq, i0, a2));
                        if key_in_prefix(sq, i0 + 1, a2) {
                            let j = choose|j: int| 0 <= j < i0 + 1 && (#[trigger] sq[j]).0 == a2;
                            assert(j == i0);
                            assert(a2 == a);
                        }
                    }
                }
                assert forall|j: int| 0 <= j < i0 + 1 implies dst_pt@[(#[trigger] sq[j]).0]
                    == cow_entry_shared((sq[j]).1) by {
                    if j < i0 {
                        assert((sq[j]).0 != a);
                    }
                }
            }
            i = i + 1;
        }
        let r = CopyOnWrite { pages: self.pages.copied() };
        proof {
            use_type_invariant(&self.pages);
            self.pages.lemma_view();
            assert forall|a: usize| #[trigger] pg.contains_key(a) implies src_pt@[a]
                == cow_entry_shared(pg[a]) && dst_pt@[a] == cow_entry_shared(pg[a])
                && refs@[pg[a].frame] == old(refs)@[pg[a].frame] + 1 by {
                let j = choose|j: int| 0 <= j < sq.len() && (#[trigger] sq[j]).0 == a;
                assert((sq[j]).1 == pg[a]);
                assert(src_pt@[(sq[j]).0] == cow_entry_shared((sq[j]).1));
                assert(dst_pt@[(sq[j]).0] == cow_entry_shared((sq[j]).1));
                assert(refs@[(sq[j]).1.frame] == old(refs)@[(sq[j]).1.frame] + 1);
            }
            assert forall|a: usize| #[trigger] dst_pt@.contains_key(a) <==> (old(
                dst_pt,
            )@.contains_key(a) || pg.contains_key(a)) by {
                if key_in_prefix(sq, n as int, a) {
                    let j = choose|j: int| 0 <= j < n && (#[trigger] sq[j]).0 == a;
                    assert(pg.contains_key(a));
                }
                if pg.contains_key(a) {
                    let j = choose|j: int| 0 <= j < sq.len() && (#[trigger] sq[j]).0 == a;
                    assert(key_in_prefix(sq, n as int, a));
                }
            }
            assert(cow_pt_inv(pg, src_pt@, refs@)) by {
                assert forall|a: usize| #[trigger] pg.contains_key(a) implies src_pt@.contains_key(
                    a,
                ) && src_pt@[a].frame == Some(pg[a].frame) && refs@.contains_key(pg[a].frame)
                    && refs@[pg[a].frame] >= 1 by {
                    assert(src_pt@[a] == cow_entry_shared(pg[a]));
                }
            }
            assert(cow_pt_inv(r.pages_view(), dst_pt@, refs@)) by {
                assert forall|a: usize| #[trigger] pg.contains_key(a) implies dst_pt@.contains_key(
                    a,
                ) && dst_pt@[a].frame == Some(pg[a].frame) && refs@.contains_key(pg[a].frame)
                    && refs@[pg[a].frame] >= 1 by {
                    assert(dst_pt@[a] == cow_entry_shared(pg[a]));
                }
            }
        }
        r
    }
}

/// Divergence on a shared frame: a write fault resolved while the frame has
/// two owners allocates exactly one new frame, and the other owner's copy is
/// untouched — its frame is not freed and it keeps its one remaining share —
/// while the faulting copy stands writable again on the fresh frame, under
/// the attribute its owner originally requested.
pub proof fn lemma_cow_write_fault_divergence(
    pg0: Map<usize, CowPage>,
    pg1: Map<usize, CowPage>,
    pt0: Map<usize, PageTableEntry>,
    pt1: Map<usize, PageTableEntry>,
    free0: Seq<usize>,
    free1: Seq<usize>,
    refs0: Map<usize, usize>,
    refs1: Map<usize, usize>,
    addr: usize,
)
    requires
        cow_fault_post(pg0, pg1, pt0, pt1, free0, free1, refs0, refs1, addr, true),
        cow_frames_inv(pg0, free0),
        pg0.contains_key(addr),
        pg0[addr].attr.writable,
        refs0[pg0[addr].frame] == 2,
    ensures
        free1.len() + 1 == free0.len(),
        refs1.contains_key(pg0[addr].frame),
        refs1[pg0[addr].frame] == 1,
        !free1.contains(pg0[addr].frame),
        pg1[addr].frame == free0.last(),
        pg1[addr].frame != pg0[addr].frame,
        pt1[addr] == (PageTableEntry { frame: Some(free0.last()), attr: pg0[addr].attr }),
        pt1[addr].attr.writable,
{
    let f = pg0[addr].frame;
    let nf = free0.last();
    assert(free0.len() > 0);
    assert(free0.contains(nf)) by {
        assert(free0[free0.len() - 1] == nf);
    }
    assert(!free0.contains(f));
    assert(f != nf);
    if free1.contains(f) {
        lemma_drop_last_contains(free0, f);
    }
}

} // verus!
