use memory::attr::MemoryAttr;
use memory::byframe::ByFrame;
use memory::cow::CopyOnWrite;
use memory::error::MemoryError;
use memory::frame_alloc::FrameAllocator;
use memory::frame_alloc::RefCounts;
use memory::handler::MemoryHandler;
use memory::lazy::Lazy;
use memory::linear::Linear;
use memory::page_table::PageTable;

fn rw() -> MemoryAttr {
    MemoryAttr { readable: true, writable: true, executable: false, user: false, cache: None }
}

fn ro() -> MemoryAttr {
    MemoryAttr { readable: true, writable: false, executable: false, user: false, cache: None }
}

#[test]
fn cow_map_tracks_one_owner_and_unmap_frees_the_sole_frame() {
    let mut pt = PageTable::new();
    let mut fa = FrameAllocator::new();
    let mut refs = RefCounts::new();
    fa.add_frame(100);
    let mut h = CopyOnWrite::new();
    assert_eq!(h.map(&mut pt, &mut fa, &mut refs, 1, rw()), Ok(()));
    assert_eq!(fa.free_count(), 0);
    assert_eq!(refs.count(100), 1);
    assert_eq!(pt.lookup(1).unwrap().frame, Some(100));
    assert_eq!(h.unmap(&mut pt, &mut fa, &mut refs, 1), Ok(()));
    assert_eq!(fa.free_count(), 1);
    assert_eq!(refs.count(100), 0);
    assert!(!pt.contains(1));
}

#[test]
fn cow_unmap_of_unmapped_address_fails_and_changes_nothing() {
    let mut pt = PageTable::new();
    let mut fa = FrameAllocator::new();
    let mut refs = RefCounts::new();
    fa.add_frame(100);
    let mut h = CopyOnWrite::new();
    assert_eq!(h.unmap(&mut pt, &mut fa, &mut refs, 1), Err(MemoryError::EntryNotFound));
    assert_eq!(fa.free_count(), 1);
}

#[test]
fn cow_map_exhaustion_and_double_map_are_reported() {
    let mut pt = PageTable::new();
    let mut fa = FrameAllocator::new();
    let mut refs = RefCounts::new();
    fa.add_frame(100);
    let mut h = CopyOnWrite::new();
    assert_eq!(h.map(&mut pt, &mut fa, &mut refs, 1, rw()), Ok(()));
    assert_eq!(h.map(&mut pt, &mut fa, &mut refs, 1, rw()), Err(MemoryError::AlreadyMapped));
    assert_eq!(h.map(&mut pt, &mut fa, &mut refs, 2, rw()), Err(MemoryError::NoFramesAvailable));
}

#[test]
fn cow_duplicate_marks_both_copies_read_only_and_write_fault_diverges() {
    // After a fork both copies of the shared page are read-only and the
    // frame has two owners. A write fault on one copy allocates exactly one
    // new frame; the other copy keeps the old frame, read-only, with one
    // remaining owner.
    let mut pt1 = PageTable::new();
    let mut pt2 = PageTable::new();
    let mut fa = FrameAllocator::new();
    let mut refs = RefCounts::new();
    fa.add_frame(100);
    fa.add_frame(101);
    let mut h1 = CopyOnWrite::new();
    assert_eq!(h1.map(&mut pt1, &mut fa, &mut refs, 1, rw()), Ok(()));
    let shared = pt1.lookup(1).unwrap().frame.unwrap();
    assert_eq!(shared, 101);
    assert!(pt1.lookup(1).unwrap().attr.writable);

    let mut h2 = h1.duplicate(&mut pt1, &mut pt2, &mut refs);
    assert_eq!(refs.count(shared), 2);
    let e1 = pt1.lookup(1).unwrap();
    let e2 = pt2.lookup(1).unwrap();
    assert!(!e1.attr.writable);
    assert!(!e2.attr.writable);
    assert_eq!(e1.frame, Some(shared));
    assert_eq!(e2.frame, Some(shared));

    let before = fa.free_count();
    assert!(h1.handle_page_fault(&mut pt1, &mut fa, &mut refs, 1));
    assert_eq!(fa.free_count(), before - 1);
    let e1b = pt1.lookup(1).unwrap();
    assert!(e1b.attr.writable);
    assert_eq!(e1b.frame, Some(100));
    // The other owner's copy is untouched and still attributed to it.
    assert_eq!(pt2.lookup(1).unwrap(), e2);
    assert_eq!(refs.count(shared), 1);
    assert_eq!(refs.count(100), 1);

    // The remaining owner now holds the frame alone: its write fault
    // restores write permission in place, allocating nothing.
    let count = fa.free_count();
    assert!(h2.handle_page_fault(&mut pt2, &mut fa, &mut refs, 1));
    assert_eq!(fa.free_count(), count);
    let e2b = pt2.lookup(1).unwrap();
    assert!(e2b.attr.writable);
    assert_eq!(e2b.frame, Some(shared));
}

#[test]
fn cow_unmap_of_shared_page_frees_nothing_until_the_last_owner() {
    let mut pt1 = PageTable::new();
    let mut pt2 = PageTable::new();
    let mut fa = FrameAllocator::new();
    let mut refs = RefCounts::new();
    fa.add_frame(100);
    let mut h1 = CopyOnWrite::new();
    assert_eq!(h1.map(&mut pt1, &mut fa, &mut refs, 1, rw()), Ok(()));
    let mut h2 = h1.duplicate(&mut pt1, &mut pt2, &mut refs);
    assert_eq!(refs.count(100), 2);
    assert_eq!(h1.unmap(&mut pt1, &mut fa, &mut refs, 1), Ok(()));
    assert_eq!(fa.free_count(), 0);
    assert_eq!(refs.count(100), 1);
    assert_eq!(h2.unmap(&mut pt2, &mut fa, &mut refs, 1), Ok(()));
    assert_eq!(fa.free_count(), 1);
    assert_eq!(refs.count(100), 0);
}

#[test]
fn cow_write_fault_on_page_never_writable_is_a_permission_violation() {
    let mut pt = PageTable::new();
    let mut fa = FrameAllocator::new();
    let mut refs = RefCounts::new();
    fa.add_frame(100);
    fa.add_frame(101);
    let mut h = CopyOnWrite::new();
    assert_eq!(h.map(&mut pt, &mut fa, &mut refs, 1, ro()), Ok(()));
    assert!(!h.handle_page_fault(&mut pt, &mut fa, &mut refs, 1));
    assert_eq!(fa.free_count(), 1);
    assert!(!h.handle_page_fault(&mut pt, &mut fa, &mut refs, 9));
}

#[test]
fn handler_dispatches_byframe() {
    let mut pt = PageTable::new();
    let mut fa = FrameAllocator::new();
    let mut refs = RefCounts::new();
    fa.add_frame(70);
    let mut h = MemoryHandler::ByFrame(ByFrame::new());
    assert_eq!(h.map(&mut pt, &mut fa, &mut refs, 3, rw()), Ok(()));
    assert_eq!(fa.free_count(), 0);
    assert!(!h.handle_page_fault(&mut pt, &mut fa, &mut refs, 3));
    assert_eq!(h.unmap(&mut pt, &mut fa, &mut refs, 3), Ok(()));
    assert_eq!(fa.free_count(), 1);
    assert_eq!(h.unmap(&mut pt, &mut fa, &mut refs, 3), Err(MemoryError::EntryNotFound));
}

#[test]
fn handler_linear_never_changes_the_free_frame_count() {
    let mut pt = PageTable::new();
    let mut fa = FrameAllocator::new();
    let mut refs = RefCounts::new();
    fa.add_frame(70);
    fa.add_frame(71);
    let mut h = MemoryHandler::Linear(Linear::new(500));
    let before = fa.free_count();
    assert_eq!(h.map(&mut pt, &mut fa, &mut refs, 3, rw()), Ok(()));
    assert_eq!(fa.free_count(), before);
    assert_eq!(pt.lookup(3).unwrap().frame, Some(503));
    assert!(!h.handle_page_fault(&mut pt, &mut fa, &mut refs, 3));
    assert_eq!(fa.free_count(), before);
    assert_eq!(h.unmap(&mut pt, &mut fa, &mut refs, 3), Ok(()));
    assert_eq!(fa.free_count(), before);
}

#[test]
fn handler_dispatches_lazy_and_cow() {
    let mut pt = PageTable::new();
    let mut fa = FrameAllocator::new();
    let mut refs = RefCounts::new();
    fa.add_frame(70);
    fa.add_frame(71);
    let mut h = MemoryHandler::Lazy(Lazy::new());
    assert_eq!(h.map(&mut pt, &mut fa, &mut refs, 3, rw()), Ok(()));
    assert_eq!(fa.free_count(), 2);
    assert!(h.handle_page_fault(&mut pt, &mut fa, &mut refs, 3));
    assert_eq!(fa.free_count(), 1);
    assert_eq!(h.unmap(&mut pt, &mut fa, &mut refs, 3), Ok(()));
    assert_eq!(fa.free_count(), 2);

    let mut c = MemoryHandler::CopyOnWrite(CopyOnWrite::new());
    assert_eq!(c.map(&mut pt, &mut fa, &mut refs, 4, rw()), Ok(()));
    assert_eq!(fa.free_count(), 1);
    assert_eq!(c.unmap(&mut pt, &mut fa, &mut refs, 4), Ok(()));
    assert_eq!(fa.free_count(), 2);
}

#[test]
fn handler_duplicate_forks_a_cow_region() {
    let mut pt1 = PageTable::new();
    let mut pt2 = PageTable::new();
    let mut fa = FrameAllocator::new();
    let mut refs = RefCounts::new();
    fa.add_frame(80);
    let mut h1 = MemoryHandler::CopyOnWrite(CopyOnWrite::new());
    assert_eq!(h1.map(&mut pt1, &mut fa, &mut refs, 6, rw()), Ok(()));
    let mut h2 = h1.duplicate(&mut pt1, &mut pt2, &mut refs);
    assert_eq!(refs.count(80), 2);
    assert!(!pt1.lookup(6).unwrap().attr.writable);
    assert!(!pt2.lookup(6).unwrap().attr.writable);
    assert_eq!(h2.unmap(&mut pt2, &mut fa, &mut refs, 6), Ok(()));
    assert_eq!(h1.unmap(&mut pt1, &mut fa, &mut refs, 6), Ok(()));
    assert_eq!(fa.free_count(), 1);

    // Duplicating a stateless handler shares nothing and touches nothing.
    let hb = MemoryHandler::ByFrame(ByFrame::new());
    let _hb2 = hb.duplicate(&mut pt1, &mut pt2, &mut refs);
    assert_eq!(refs.count(80), 0);
}
