use kernel::memory::{
    alloc_stack, init, translate_addr, update_physical_memory_offset, BootInfoFrameAllocator,
    MemoryError, MemoryRegion, StackAllocator, PAGE_SIZE, STACK_AREA_START,
};

fn region(start: u64, end: u64, usable: bool) -> MemoryRegion {
    MemoryRegion { start, end, usable }
}

#[test]
fn frame_allocator_walks_usable_regions_in_order() {
    let map = vec![
        region(0x1000, 0x3000, true),
        region(0x3000, 0x4000, false),
        region(0x4000, 0x6000, true),
    ];
    let mut fa = BootInfoFrameAllocator::init(map);
    assert_eq!(fa.allocate_frame(), Some(0x1000));
    assert_eq!(fa.allocate_frame(), Some(0x2000));
    assert_eq!(fa.allocate_frame(), Some(0x4000));
    assert_eq!(fa.allocate_frame(), Some(0x5000));
    assert_eq!(fa.allocate_frame(), None);
    assert_eq!(fa.allocate_frame(), None);
}

#[test]
fn frame_allocator_skips_unusable_only_map() {
    let map = vec![region(0x1000, 0x9000, false)];
    let mut fa = BootInfoFrameAllocator::init(map);
    assert_eq!(fa.allocate_frame(), None);
}

#[test]
fn mapper_rejects_double_mapping() {
    let mut mapper = init(0);
    assert_eq!(mapper.map_to(0x1000, 0x8000), Ok(()));
    assert_eq!(mapper.map_to(0x1000, 0x9000), Err(MemoryError::PageAlreadyMapped));
    assert_eq!(mapper.map_to(0x2000, 0x9000), Ok(()));
}

#[test]
fn mapper_unmap_releases_page() {
    let mut mapper = init(0);
    assert_eq!(mapper.map_to(0x1000, 0x8000), Ok(()));
    assert_eq!(mapper.unmap(0x1000), Some(0x8000));
    assert_eq!(mapper.unmap(0x1000), None);
    assert_eq!(mapper.map_to(0x1000, 0xA000), Ok(()));
}

#[test]
fn translate_addr_adds_page_offset() {
    let mut mapper = init(0);
    mapper.map_to(0x4000, 0x2_0000).unwrap();
    assert_eq!(translate_addr(&mapper, 0x4000), Some(0x2_0000));
    assert_eq!(translate_addr(&mapper, 0x4ABC), Some(0x2_0ABC));
    assert_eq!(translate_addr(&mapper, 0x5000), None);
}

#[test]
fn physical_memory_offset_is_recorded() {
    let mut mapper = init(0);
    assert_eq!(mapper.physical_memory_offset, 0);
    update_physical_memory_offset(&mut mapper, 0xFFFF_8000_0000_0000);
    assert_eq!(mapper.physical_memory_offset, 0xFFFF_8000_0000_0000);
}

#[test]
fn alloc_stack_maps_range_and_leaves_guard_unmapped() {
    let map = vec![region(0x10_0000, 0x10_0000 + 8 * PAGE_SIZE, true)];
    let mut fa = BootInfoFrameAllocator::init(map);
    let mut mapper = init(0);
    let mut alloc = StackAllocator::new();

    let bounds = alloc_stack(2, &mut alloc, &mut mapper, &mut fa).unwrap();
    assert_eq!(bounds.start(), STACK_AREA_START + PAGE_SIZE);
    assert_eq!(bounds.end(), STACK_AREA_START + 3 * PAGE_SIZE);

    // Both stack pages are mapped to the first two frames of the map.
    assert_eq!(translate_addr(&mapper, bounds.start()), Some(0x10_0000));
    assert_eq!(translate_addr(&mapper, bounds.start() + PAGE_SIZE), Some(0x10_1000));
    // The guard page below the stack is unmapped.
    assert_eq!(translate_addr(&mapper, bounds.start() - PAGE_SIZE), None);
    // The cursor advanced past the whole window.
    assert_eq!(alloc.next, STACK_AREA_START + 3 * PAGE_SIZE);
}

#[test]
fn alloc_stack_fails_without_enough_frames() {
    let map = vec![region(0x10_0000, 0x10_0000 + PAGE_SIZE, true)];
    let mut fa = BootInfoFrameAllocator::init(map);
    let mut mapper = init(0);
    let mut alloc = StackAllocator::new();

    let r = alloc_stack(2, &mut alloc, &mut mapper, &mut fa);
    assert_eq!(r, Err(MemoryError::FrameAllocationFailed));
    // The address window is consumed even on failure.
    assert_eq!(alloc.next, STACK_AREA_START + 3 * PAGE_SIZE);
}

#[test]
fn successive_stacks_are_disjoint_with_guard_between() {
    let map = vec![region(0x10_0000, 0x10_0000 + 16 * PAGE_SIZE, true)];
    let mut fa = BootInfoFrameAllocator::init(map);
    let mut mapper = init(0);
    let mut alloc = StackAllocator::new();

    let b1 = alloc_stack(2, &mut alloc, &mut mapper, &mut fa).unwrap();
    let b2 = alloc_stack(3, &mut alloc, &mut mapper, &mut fa).unwrap();
    assert!(b1.end() <= b2.start());
    // The second stack's guard page sits between the two regions, unmapped.
    assert_eq!(b2.start() - b1.end(), PAGE_SIZE);
    assert_eq!(translate_addr(&mapper, b1.end()), None);
}
