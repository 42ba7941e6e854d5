//! Physical memory as reported by the bootloader, and the choice of the
//! region that backs the kernel heap.

use vstd::prelude::*;

verus! {

/// What a physical memory region is used for.
#[derive(Clone, Copy, Debug, PartialEq, Eq, Structural)]
pub enum MemoryRegionKind {
    /// Free memory, available to the kernel.
    Usable,
    /// Memory in use by the bootloader (kernel image, page tables, boot info).
    Bootloader,
    /// A region the UEFI firmware marked with this memory type.
    UnknownUefi(u32),
    /// A region the BIOS E820 map marked with this type.
    UnknownBios(u32),
}

/// A physical memory region `start..end`.
#[derive(Clone, Copy, Debug, PartialEq, Eq, Structural)]
pub struct MemoryRegion {
    pub start: u64,
    pub end: u64,
    pub kind: MemoryRegionKind,
}

/// Every region ends at or after its start.
pub open spec fn regions_well_formed(regions: Seq<MemoryRegion>) -> bool {
    forall|i: int| 0 <= i < regions.len() ==> #[trigger] regions[i].start <= regions[i].end
}

/// The heap region chosen from `regions`, as (start, size): the largest
/// usable region, the earliest one among equally large ones; (0, 0) when no
/// usable region is larger than zero bytes.
pub open spec fn heap_region_spec(regions: Seq<MemoryRegion>) -> (u64, u64)
    decreases regions.len(),
{
    if regions.len() == 0 {
        (0, 0)
    } else {
        let best = heap_region_spec(regions.drop_last());
        let r = regions.last();
        if r.kind == MemoryRegionKind::Usable && r.end - r.start > best.1 {
            (r.start, (r.end - r.start) as u64)
        } else {
            best
        }
    }
}

/// Chooses the region that backs the heap; see `heap_region_spec`.
pub fn heap_region(regions: &[MemoryRegion]) -> (r: (u64, u64))
    requires
        regions_well_formed(regions@),
    ensures
        r == heap_region_spec(regions@),
{
    let mut start: u64 = 0;
    let mut size: u64 = 0;
    let mut i: usize = 0;
    while i < regions.len()
        invariant
            i <= regions@.len(),
            regions_well_formed(regions@),
            (start, size) == heap_region_spec(regions@.take(i as int)),
        decreases regions@.len() - i,
    {
        let region = regions[i];
        proof {
            assert(regions@.take(i + 1).drop_last() =~= regions@.take(i as int));
            assert(regions@.take(i + 1).last() == regions@[i as int]);
            assert(regions@[i as int].start <= regions@[i as int].end);
        }
        let region_size = region.end - region.start;
        let usable = match region.kind {
            MemoryRegionKind::Usable => true,
            _ => false,
        };
        if usable && region_size > size {
            start = region.start;
            size = region_size;
        }
        i = i + 1;
    }
    proof {
        assert(regions@.take(regions@.len() as int) =~= regions@);
    }
    (start, size)
}

/// The chosen region is at least as large as every usable region, and, when
/// it is not empty, it is one of the usable regions.
pub proof fn lemma_heap_region_is_largest(regions: Seq<MemoryRegion>)
    requires
        regions_well_formed(regions),
    ensures
        forall|i: int|
            0 <= i < regions.len() && regions[i].kind == MemoryRegionKind::Usable ==> regions[i].end
                - regions[i].start <= #[trigger] heap_region_spec(regions).1,
        heap_region_spec(regions).1 > 0 ==> exists|i: int|
            0 <= i < regions.len() && regions[i].kind == MemoryRegionKind::Usable && regions[i].start
                == heap_region_spec(regions).0 && regions[i].end - regions[i].start == heap_region_spec(
                regions,
            ).1,
    decreases regions.len(),
{
    if regions.len() > 0 {
        let prefix = regions.drop_last();
        assert forall|i: int| 0 <= i < prefix.len() implies #[trigger] prefix[i].start <= prefix[i].end by {
            assert(prefix[i] == regions[i]);
        }
        lemma_heap_region_is_largest(prefix);
        let best = heap_region_spec(prefix);
        let last = regions.len() - 1;
        assert(regions[last].start <= regions[last].end);
        assert forall|i: int|
            0 <= i < regions.len() && regions[i].kind == MemoryRegionKind::Usable implies regions[i].end
            - regions[i].start <= #[trigger] heap_region_spec(regions).1 by {
            if i < last {
                assert(prefix[i] == regions[i]);
                assert(regions[i].end - regions[i].start <= best.1);
            }
        }
        if heap_region_spec(regions).1 > 0 {
            if heap_region_spec(regions) == best {
                let j = choose|j: int|
                    0 <= j < prefix.len() && prefix[j].kind == MemoryRegionKind::Usable && prefix[j].start
                        == best.0 && prefix[j].end - prefix[j].start == best.1;
                assert(regions[j] == prefix[j]);
            } else {
                assert(regions[last].kind == MemoryRegionKind::Usable);
            }
        }
    }
}

} // verus!
