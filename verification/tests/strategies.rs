use memory::attr::CachePolicy;
use memory::attr::MemoryAttr;
use memory::byframe::ByFrame;
use memory::error::MemoryError;
use memory::frame_alloc::FrameAllocator;
use memory::lazy::Lazy;
use memory::linear::Linear;
use memory::page_table::PageTable;

fn rw() -> MemoryAttr {
    MemoryAttr { readable: true, writable: true, executable: false, user: false, cache: None }
}

fn ro() -> MemoryAttr {
    MemoryAttr { readable: true, writable: false, executable: false, user: true, cache: None }
}

#[test]
fn attr_read_only_clears_only_the_write_bit() {
    let a = MemoryAttr {
        readable: true,
        writable: true,
        executable: true,
        user: true,
        cache: Some(CachePolicy::WriteThrough),
    };
    let r = a.read_only();
    assert!(!r.writable);
    assert!(r.readable);
    assert!(r.executable);
    assert!(r.user);
    assert_eq!(r.cache, Some(CachePolicy::WriteThrough));
}

#[test]
fn allocator_hands_frames_back_in_stack_order() {
    let mut fa = FrameAllocator::new();
    fa.add_frame(1);
    fa.add_frame(2);
    assert_eq!(fa.free_count(), 2);
    assert_eq!(fa.allocate(), Ok(2));
    assert_eq!(fa.allocate(), Ok(1));
    assert_eq!(fa.allocate(), Err(MemoryError::NoFramesAvailable));
    fa.free(1);
    assert_eq!(fa.free_count(), 1);
    assert_eq!(fa.allocate(), Ok(1));
}

#[test]
fn page_table_install_lookup_update_remove() {
    let mut pt = PageTable::new();
    assert!(!pt.contains(4));
    assert!(pt.lookup(4).is_none());
    pt.install(4, Some(9), rw());
    let e = pt.lookup(4).unwrap();
    assert_eq!(e.frame, Some(9));
    assert!(e.present());
    assert!(e.attr.writable);
    pt.update(4, Some(9), ro());
    assert!(!pt.lookup(4).unwrap().attr.writable);
    pt.remove_mapping(4);
    assert!(!pt.contains(4));
}

#[test]
fn byframe_map_charges_one_frame_and_unmap_returns_it() {
    let mut pt = PageTable::new();
    let mut fa = FrameAllocator::new();
    fa.add_frame(40);
    fa.add_frame(41);
    let h = ByFrame::new();
    let before = fa.free_count();
    assert_eq!(h.map(&mut pt, &mut fa, 7, rw()), Ok(()));
    assert_eq!(fa.free_count(), before - 1);
    let e = pt.lookup(7).unwrap();
    assert_eq!(e.frame, Some(41));
    assert!(e.attr.writable);
    assert_eq!(h.unmap(&mut pt, &mut fa, 7), Ok(()));
    assert_eq!(fa.free_count(), before);
    assert!(!pt.contains(7));
    assert_eq!(fa.allocate(), Ok(41));
}

#[test]
fn byframe_map_twice_is_reported_as_a_caller_bug() {
    let mut pt = PageTable::new();
    let mut fa = FrameAllocator::new();
    fa.add_frame(40);
    fa.add_frame(41);
    let h = ByFrame::new();
    assert_eq!(h.map(&mut pt, &mut fa, 7, rw()), Ok(()));
    assert_eq!(h.map(&mut pt, &mut fa, 7, rw()), Err(MemoryError::AlreadyMapped));
    assert_eq!(fa.free_count(), 1);
}

#[test]
fn byframe_unmap_of_unmapped_address_fails_and_changes_nothing() {
    let mut pt = PageTable::new();
    let mut fa = FrameAllocator::new();
    fa.add_frame(40);
    let h = ByFrame::new();
    assert_eq!(h.unmap(&mut pt, &mut fa, 3), Err(MemoryError::EntryNotFound));
    assert_eq!(fa.free_count(), 1);
    assert!(!pt.contains(3));
}

#[test]
fn byframe_exhaustion_is_reported_then_recovery_succeeds() {
    // One free frame: the first map takes it, the second is refused with the
    // distinct exhaustion error, unmapping returns the frame, and the
    // refused map now succeeds.
    let mut pt = PageTable::new();
    let mut fa = FrameAllocator::new();
    fa.add_frame(90);
    let h = ByFrame::new();
    assert_eq!(fa.free_count(), 1);
    assert_eq!(h.map(&mut pt, &mut fa, 10, rw()), Ok(()));
    assert_eq!(h.map(&mut pt, &mut fa, 11, rw()), Err(MemoryError::NoFramesAvailable));
    assert_eq!(h.unmap(&mut pt, &mut fa, 10), Ok(()));
    assert_eq!(fa.free_count(), 1);
    assert_eq!(h.map(&mut pt, &mut fa, 11, rw()), Ok(()));
    assert_eq!(pt.lookup(11).unwrap().frame, Some(90));
}

#[test]
fn byframe_never_resolves_a_fault() {
    let mut pt = PageTable::new();
    let mut fa = FrameAllocator::new();
    fa.add_frame(90);
    let h = ByFrame::new();
    assert_eq!(h.map(&mut pt, &mut fa, 10, rw()), Ok(()));
    assert!(!h.handle_page_fault(&mut pt, 10));
    assert!(!h.handle_page_fault(&mut pt, 11));
}

#[test]
fn linear_maps_at_fixed_offset_without_touching_the_allocator() {
    let mut pt = PageTable::new();
    let h = Linear::new(1000);
    assert_eq!(h.offset(), 1000);
    assert_eq!(h.map(&mut pt, 5, ro()), Ok(()));
    let e = pt.lookup(5).unwrap();
    assert_eq!(e.frame, Some(1005));
    assert!(!e.attr.writable);
    assert_eq!(h.map(&mut pt, 5, ro()), Err(MemoryError::AlreadyMapped));
    assert!(!h.handle_page_fault(&mut pt, 5));
    assert_eq!(h.unmap(&mut pt, 5), Ok(()));
    assert!(!pt.contains(5));
    assert_eq!(h.unmap(&mut pt, 5), Err(MemoryError::EntryNotFound));
}

#[test]
fn lazy_map_installs_no_frame() {
    let mut pt = PageTable::new();
    let h = Lazy::new();
    assert_eq!(h.map(&mut pt, 8, rw()), Ok(()));
    let e = pt.lookup(8).unwrap();
    assert_eq!(e.frame, None);
    assert!(!e.present());
    assert!(e.attr.writable);
    assert_eq!(h.map(&mut pt, 8, rw()), Err(MemoryError::AlreadyMapped));
}

#[test]
fn lazy_fault_allocates_once_and_is_idempotent() {
    // A write fault on the lazily-mapped page takes exactly one frame; a
    // second fault succeeds with no further change to the free count.
    let mut pt = PageTable::new();
    let mut fa = FrameAllocator::new();
    fa.add_frame(60);
    fa.add_frame(61);
    let h = Lazy::new();
    assert_eq!(h.map(&mut pt, 8, rw()), Ok(()));
    assert_eq!(fa.free_count(), 2);
    assert!(h.handle_page_fault(&mut pt, &mut fa, 8));
    assert_eq!(fa.free_count(), 1);
    let e = pt.lookup(8).unwrap();
    assert_eq!(e.frame, Some(61));
    assert!(e.attr.writable);
    assert!(h.handle_page_fault(&mut pt, &mut fa, 8));
    assert_eq!(fa.free_count(), 1);
    assert_eq!(pt.lookup(8).unwrap().frame, Some(61));
}

#[test]
fn lazy_fault_declines_on_unmapped_page_or_exhaustion() {
    let mut pt = PageTable::new();
    let mut fa = FrameAllocator::new();
    let h = Lazy::new();
    assert!(!h.handle_page_fault(&mut pt, &mut fa, 8));
    assert_eq!(h.map(&mut pt, 8, rw()), Ok(()));
    assert!(!h.handle_page_fault(&mut pt, &mut fa, 8));
    assert!(!pt.lookup(8).unwrap().present());
}

#[test]
fn lazy_unmap_releases_a_frame_exactly_when_one_was_allocated() {
    let mut pt = PageTable::new();
    let mut fa = FrameAllocator::new();
    fa.add_frame(60);
    let h = Lazy::new();
    // Never-touched page: no phantom deallocation.
    assert_eq!(h.map(&mut pt, 8, rw()), Ok(()));
    assert_eq!(h.unmap(&mut pt, &mut fa, 8), Ok(()));
    assert_eq!(fa.free_count(), 1);
    // Touched page: the allocated frame comes back.
    assert_eq!(h.map(&mut pt, 9, rw()), Ok(()));
    assert!(h.handle_page_fault(&mut pt, &mut fa, 9));
    assert_eq!(fa.free_count(), 0);
    assert_eq!(h.unmap(&mut pt, &mut fa, 9), Ok(()));
    assert_eq!(fa.free_count(), 1);
    assert_eq!(h.unmap(&mut pt, &mut fa, 9), Err(MemoryError::EntryNotFound));
}
