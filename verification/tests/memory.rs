use kernel::memory::{heap_region, MemoryRegion, MemoryRegionKind};

fn region(start: u64, end: u64, kind: MemoryRegionKind) -> MemoryRegion {
    MemoryRegion { start, end, kind }
}

#[test]
fn largest_usable_region_backs_the_heap() {
    let regions = [
        region(0, 0x1000, MemoryRegionKind::Bootloader),
        region(0x1000, 0x9_0000, MemoryRegionKind::Usable),
        region(0x10_0000, 0x800_0000, MemoryRegionKind::Usable),
        region(0x800_0000, 0x1000_0000, MemoryRegionKind::UnknownUefi(7)),
    ];
    assert_eq!(heap_region(&regions), (0x10_0000, 0x7F0_0000));
}

#[test]
fn equally_large_regions_prefer_the_first() {
    let regions = [
        region(0x1000, 0x2000, MemoryRegionKind::Usable),
        region(0x5000, 0x6000, MemoryRegionKind::Usable),
    ];
    assert_eq!(heap_region(&regions), (0x1000, 0x1000));
}

#[test]
fn no_usable_region_gives_nothing() {
    let regions = [
        region(0, 0x1000, MemoryRegionKind::Bootloader),
        region(0x1000, 0x2000, MemoryRegionKind::UnknownBios(2)),
        region(0x3000, 0x3000, MemoryRegionKind::Usable),
    ];
    assert_eq!(heap_region(&regions), (0, 0));
    assert_eq!(heap_region(&[]), (0, 0));
}
