use bigos::allocator::{initialize_heap, HEAP_POINTER, HEAP_SIZE};
use bigos::memory::{BootInfoFrameAllocator, MemoryRegion, MemoryRegionKind};
use bigos::paging::{
    decode_entry, encode_entry, init_offset_page_table, MapToError, Page, PageTableFlags,
    PhysFrame, FLAG_PRESENT, FLAG_WRITABLE,
};

fn region(start: u64, end: u64, kind: MemoryRegionKind) -> MemoryRegion {
    MemoryRegion { start, end, kind }
}

fn small_map() -> BootInfoFrameAllocator {
    BootInfoFrameAllocator::init(vec![
        region(0x1000, 0x3000, MemoryRegionKind::Usable),
        region(0x3000, 0x5000, MemoryRegionKind::Reserved),
        region(0x5000, 0x6000, MemoryRegionKind::Usable),
    ])
}

fn big_map() -> BootInfoFrameAllocator {
    BootInfoFrameAllocator::init(vec![
        region(0x10_0000, 0x10_0000 + 2048 * 4096, MemoryRegionKind::Usable),
    ])
}

#[test]
fn frame_source_walks_usable_regions_in_order() {
    let mut alloc = small_map();
    assert_eq!(alloc.allocate_frame(), Some(0x1000));
    assert_eq!(alloc.allocate_frame(), Some(0x2000));
    assert_eq!(alloc.allocate_frame(), Some(0x5000));
    assert_eq!(alloc.allocate_frame(), None);
    assert_eq!(alloc.allocate_frame(), None);
    assert_eq!(alloc.next, 5);
}

#[test]
fn frame_source_frames_are_aligned_unique_and_usable() {
    let mut alloc = small_map();
    let mut seen = Vec::new();
    while let Some(frame) = alloc.allocate_frame() {
        assert_eq!(frame % 4096, 0);
        assert!(!seen.contains(&frame));
        assert!(
            (0x1000 <= frame && frame + 4096 <= 0x3000)
                || (0x5000 <= frame && frame + 4096 <= 0x6000)
        );
        seen.push(frame);
    }
    assert_eq!(seen.len(), 3);
}

#[test]
fn frame_source_empty_map_is_exhausted_at_once() {
    let mut alloc = BootInfoFrameAllocator::init(Vec::new());
    assert_eq!(alloc.allocate_frame(), None);
}

#[test]
fn map_then_translate_returns_frame_plus_offset() {
    let mut mapper = init_offset_page_table(0, 0x1000);
    let mut alloc = big_map();
    let page = Page::containing_address(0x4000_0000);
    let frame = PhysFrame::containing_address(0x7000);
    let flags = PageTableFlags::present_writable();
    let flush = mapper.map_to(page, frame, flags, &mut alloc).expect("mapping failed");
    flush.flush();
    assert_eq!(mapper.translate_addr(0x4000_0000), Some(0x7000));
    assert_eq!(mapper.translate_addr(0x4000_0001), Some(0x7001));
    assert_eq!(mapper.translate_addr(0x4000_0042), Some(0x7042));
    assert_eq!(mapper.translate_addr(0x4000_0fff), Some(0x7fff));
}

#[test]
fn translate_unmapped_address_is_not_mapped() {
    let mut mapper = init_offset_page_table(0, 0x1000);
    assert_eq!(mapper.translate_addr(0x4000_0000), None);
    assert_eq!(mapper.translate_addr(0), None);
    let mut alloc = big_map();
    let page = Page::containing_address(0x4000_0000);
    let frame = PhysFrame::containing_address(0x7000);
    let flags = PageTableFlags::present_writable();
    mapper.map_to(page, frame, flags, &mut alloc).expect("mapping failed").flush();
    // A neighbouring page was never mapped: still not mapped.
    assert_eq!(mapper.translate_addr(0x4000_1000), None);
    assert_eq!(mapper.translate_addr(0x3fff_f000), None);
}

#[test]
fn mapping_a_page_twice_reports_the_existing_frame() {
    let mut mapper = init_offset_page_table(0, 0x1000);
    let mut alloc = big_map();
    let page = Page::containing_address(0x4000_0000);
    let flags = PageTableFlags::present_writable();
    mapper
        .map_to(page, PhysFrame::containing_address(0x7000), flags, &mut alloc)
        .expect("mapping failed")
        .flush();
    let err = mapper
        .map_to(page, PhysFrame::containing_address(0x8000), flags, &mut alloc)
        .expect_err("second mapping must fail");
    assert_eq!(err, MapToError::PageAlreadyMapped(0x7000));
}

#[test]
fn mapping_fails_when_the_frame_source_is_exhausted() {
    let mut mapper = init_offset_page_table(0, 0x1000);
    let mut alloc = BootInfoFrameAllocator::init(Vec::new());
    let page = Page::containing_address(0x4000_0000);
    let flags = PageTableFlags::present_writable();
    let err = mapper
        .map_to(page, PhysFrame::containing_address(0x7000), flags, &mut alloc)
        .expect_err("mapping without frames must fail");
    assert_eq!(err, MapToError::FrameAllocationFailed);
}

#[test]
fn heap_window_is_fully_mapped_to_distinct_frames() {
    let mut mapper = init_offset_page_table(0, 0x1000);
    let mut alloc = big_map();
    initialize_heap(&mut mapper, &mut alloc).expect("heap initialization failed");
    // 256 leaf frames plus the three table levels of the window's fresh
    // walk path: the cursor moved by exactly that.
    assert_eq!(alloc.next, 256 + 3);
    let pages = HEAP_SIZE / 4096;
    let mut frames = Vec::new();
    for i in 0..pages {
        let base = HEAP_POINTER + i * 4096;
        let phys = mapper.translate_addr(base).expect("heap page not mapped");
        assert_eq!(phys % 4096, 0);
        assert!(!frames.contains(&phys));
        frames.push(phys);
    }
    // Offsets inside a page follow the page's frame.
    let first = mapper.translate_addr(HEAP_POINTER).unwrap();
    assert_eq!(mapper.translate_addr(HEAP_POINTER + 123), Some(first + 123));
    assert_eq!(
        mapper.translate_addr(HEAP_POINTER + HEAP_SIZE - 1),
        Some(frames[(pages - 1) as usize] + 4095)
    );
    // Just outside the window nothing is mapped.
    assert_eq!(mapper.translate_addr(HEAP_POINTER + HEAP_SIZE), None);
    assert_eq!(mapper.translate_addr(HEAP_POINTER - 1), None);
}

#[test]
fn heap_initialization_fails_whole_on_exhaustion() {
    let mut mapper = init_offset_page_table(0, 0x1000);
    // Ten frames: enough to start, nowhere near enough for the whole window.
    let mut alloc = BootInfoFrameAllocator::init(vec![region(
        0x10_0000,
        0x10_0000 + 10 * 4096,
        MemoryRegionKind::Usable,
    )]);
    let err = initialize_heap(&mut mapper, &mut alloc).expect_err("heap must not half-initialize");
    assert_eq!(err, MapToError::FrameAllocationFailed);
    // Pages mapped before the failure stay; the rest of the window stays
    // unmapped; and the supply was short of the 256 + 3 frames the fresh
    // window needs.
    assert!(mapper.translate_addr(HEAP_POINTER).is_some());
    assert_eq!(mapper.translate_addr(HEAP_POINTER + HEAP_SIZE - 4096), None);
}

#[test]
fn raw_entry_serialization_round_trips() {
    let flags = PageTableFlags { bits: FLAG_PRESENT | FLAG_WRITABLE };
    let raw = encode_entry(0xb8000, flags);
    assert_eq!(raw, 0xb8003);
    let (frame, decoded) = decode_entry(raw);
    assert_eq!(frame, 0xb8000);
    assert_eq!(decoded.bits, 0x3);
    assert!(decoded.present() && decoded.writable() && !decoded.huge());
}
