use first_os::memory::{level_4_table_address, BootInfoFrameAllocator, MemoryRegion, MemoryRegionType, PhysFrame};

fn region(start_addr: u64, end_addr: u64, region_type: MemoryRegionType) -> MemoryRegion {
    MemoryRegion { start_addr, end_addr, region_type }
}

fn frame(start: u64) -> Option<PhysFrame> {
    Some(PhysFrame { start })
}

#[test]
fn usable_regions_are_handed_out_in_order_then_exhausted() {
    let map = vec![
        region(0x1000, 0x3000, MemoryRegionType::Usable),
        region(0x3000, 0x8000, MemoryRegionType::Reserved),
        region(0x8000, 0xA000, MemoryRegionType::Usable),
    ];
    let mut allocator = BootInfoFrameAllocator::init(&map);
    assert_eq!(allocator.allocate_frame(), frame(0x1000));
    assert_eq!(allocator.allocate_frame(), frame(0x2000));
    assert_eq!(allocator.allocate_frame(), frame(0x8000));
    assert_eq!(allocator.allocate_frame(), frame(0x9000));
    assert_eq!(allocator.allocate_frame(), None);
    assert_eq!(allocator.next_index(), 5);
}

#[test]
fn equal_sized_regions_give_one_frame_per_page() {
    let size: u64 = 3 * 4096;
    let starts = [0x10000u64, 0x20000, 0x40000];
    let map: Vec<MemoryRegion> =
        starts.iter().map(|&s| region(s, s + size, MemoryRegionType::Usable)).collect();
    let mut allocator = BootInfoFrameAllocator::init(&map);
    let mut seen: Vec<u64> = Vec::new();
    for _ in 0..(3 * size / 4096) {
        let f = allocator.allocate_frame().expect("a frame");
        seen.push(f.start_address());
    }
    let mut expected: Vec<u64> = Vec::new();
    for s in starts {
        for k in 0..3 {
            expected.push(s + k * 4096);
        }
    }
    assert_eq!(seen, expected);
    assert!(seen.windows(2).all(|w| w[0] < w[1]));
    assert_eq!(allocator.allocate_frame(), None);
}

#[test]
fn reserved_only_map_has_no_frame() {
    let map = vec![
        region(0, 0x1000, MemoryRegionType::Reserved),
        region(0x1000, 0x100000, MemoryRegionType::Reserved),
    ];
    let mut allocator = BootInfoFrameAllocator::init(&map);
    assert_eq!(allocator.allocate_frame(), None);
    assert_eq!(allocator.next_index(), 1);
}

#[test]
fn empty_map_has_no_frame() {
    let mut allocator = BootInfoFrameAllocator::init(&[]);
    assert_eq!(allocator.allocate_frame(), None);
}

#[test]
fn unaligned_region_steps_from_its_start_and_aligns_down() {
    let map = vec![region(0x1800, 0x3800, MemoryRegionType::Usable)];
    let mut allocator = BootInfoFrameAllocator::init(&map);
    assert_eq!(allocator.allocate_frame(), frame(0x1000));
    assert_eq!(allocator.allocate_frame(), frame(0x2000));
    assert_eq!(allocator.allocate_frame(), None);
}

#[test]
fn partial_last_page_still_counts() {
    let map = vec![region(0x0, 0x1001, MemoryRegionType::Usable)];
    let mut allocator = BootInfoFrameAllocator::init(&map);
    assert_eq!(allocator.allocate_frame(), frame(0x0));
    assert_eq!(allocator.allocate_frame(), frame(0x1000));
    assert_eq!(allocator.allocate_frame(), None);
}

#[test]
fn inverted_region_is_empty() {
    let map = vec![
        region(0x5000, 0x4000, MemoryRegionType::Usable),
        region(0x6000, 0x7000, MemoryRegionType::Usable),
    ];
    let mut allocator = BootInfoFrameAllocator::init(&map);
    assert_eq!(allocator.allocate_frame(), frame(0x6000));
    assert_eq!(allocator.allocate_frame(), None);
}

#[test]
fn containing_address_rounds_down() {
    assert_eq!(PhysFrame::containing_address(0x1fff).start_address(), 0x1000);
    assert_eq!(PhysFrame::containing_address(0x2000).start_address(), 0x2000);
    assert_eq!(PhysFrame::containing_address(0).start_address(), 0);
}

#[test]
fn table_address_adds_the_offset() {
    assert_eq!(level_4_table_address(0x100_0000_0000, 0x1000), Some(0x100_0000_1000));
    assert_eq!(level_4_table_address(0, 0x2000), Some(0x2000));
    assert_eq!(level_4_table_address(0x7FFF_FFFF_F000, 0x1000), None);
    assert_eq!(level_4_table_address(0xFFFF_8000_0000_0000, 0x3000), Some(0xFFFF_8000_0000_3000));
    assert_eq!(level_4_table_address(u64::MAX, 1), None);
}

#[test]
fn disjoint_regions_out_of_order_give_distinct_frames() {
    let map = vec![
        region(0x20000, 0x22000, MemoryRegionType::Usable),
        region(0x4000, 0x6000, MemoryRegionType::Usable),
    ];
    let mut allocator = BootInfoFrameAllocator::init(&map);
    let mut seen: Vec<u64> = Vec::new();
    for _ in 0..4 {
        seen.push(allocator.allocate_frame().expect("a frame").start_address());
    }
    assert_eq!(seen, vec![0x20000, 0x21000, 0x4000, 0x5000]);
    assert_eq!(allocator.allocate_frame(), None);
}
