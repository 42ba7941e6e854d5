//! Memory regions shared with the device.

use vstd::prelude::*;
use crate::paging::{FLAG_NO_CACHE, FLAG_USER_ACCESSIBLE, FLAG_WRITE_THROUGH};

verus! {

/// A region of memory mapped into the driver's address space, with its
/// physical base address recorded alongside. Used for MMIO windows (PCI BAR
/// capability structures) and for DMA memory (virtqueues, packet buffers).
///
/// DMA regions are physically contiguous for their whole length, so the
/// byte at `virt + k` lives at physical address `phys + k` for `k < len`.
#[derive(Clone, Copy, Debug, PartialEq, Eq, Structural)]
pub struct MappedRegion {
    pub virt: u64,
    pub phys: u64,
    pub len: usize,
}

impl MappedRegion {
    /// Neither end of the region wraps around the address space.
    pub open spec fn fits(self) -> bool {
        self.virt + self.len <= u64::MAX && self.phys + self.len <= u64::MAX
    }

    /// Virtual and physical address of the byte at `offset` within the region.
    pub fn at(&self, offset: usize) -> (r: (u64, u64))
        requires
            self.fits(),
            offset <= self.len,
        ensures
            r.0 == self.virt + offset,
            r.1 == self.phys + offset,
    {
        (self.virt + offset as u64, self.phys + offset as u64)
    }
}

/// Size of one DMA page.
pub const PAGE_SIZE: usize = 4096;

/// The glue between the virtio transport and the kernel's memory services.
#[derive(Clone, Copy, Debug, PartialEq, Eq, Structural)]
pub struct HalImpl;

impl HalImpl {
    /// Bytes of DMA memory making up `pages` pages.
    pub fn dma_size(pages: usize) -> (r: usize)
        requires
            pages * PAGE_SIZE <= usize::MAX,
        ensures
            r == pages * PAGE_SIZE,
    {
        pages * PAGE_SIZE
    }

    /// Where physical address `paddr` is reachable through the window that
    /// maps all physical memory at virtual address `phys_offset`.
    pub fn mmio_phys_to_virt(phys_offset: u64, paddr: u64) -> (r: u64)
        requires
            phys_offset + paddr <= u64::MAX,
        ensures
            r == phys_offset + paddr,
    {
        phys_offset + paddr
    }
}

/// Flags the page-table entry of every page of a register window carries:
/// reachable from user mode, and device memory (caching disabled, writes
/// going straight through).
pub const MMIO_PAGE_FLAGS: u64 = FLAG_USER_ACCESSIBLE | FLAG_WRITE_THROUGH | FLAG_NO_CACHE;

/// Start addresses of the 4 KiB pages that hold the bytes
/// `virt..virt + len` (the page of `virt` when `len` is zero).
pub open spec fn window_pages(virt: u64, len: usize) -> Seq<u64> {
    let first = virt / 4096;
    let last: int = if len == 0 { first as int } else { (virt + len - 1) / 4096 };
    Seq::new((last - first + 1) as nat, |k: int| ((first + k) * 4096) as u64)
}

/// The register window of `len` bytes at physical address `phys`, seen
/// through the window that maps all physical memory at `phys_offset`, and
/// the pages it spans. Each of those pages must be mapped as device memory
/// before use; see `mmio_page`.
pub fn mmio_region(phys_offset: u64, phys: u64, len: usize) -> (r: (MappedRegion, Vec<u64>))
    requires
        phys_offset + phys + len <= u64::MAX,
    ensures
        r.0 == (MappedRegion { virt: (phys_offset + phys) as u64, phys: phys, len: len }),
        r.1@ == window_pages(r.0.virt, len),
{
    let virt = HalImpl::mmio_phys_to_virt(phys_offset, phys);
    let first: u64 = virt / 4096;
    let last: u64 = if len == 0 { first } else { (virt + len as u64 - 1) / 4096 };
    assert(first <= last) by (nonlinear_arith)
        requires
            first == virt / 4096,
            len == 0 ==> last == first,
            len > 0 ==> last == (virt + len - 1) / 4096,
    ;
    assert(last * 4096 <= u64::MAX) by (nonlinear_arith)
        requires
            len == 0 ==> last == virt / 4096,
            len > 0 ==> last == (virt + len - 1) / 4096,
            virt + len <= u64::MAX,
    ;
    let mut pages: Vec<u64> = Vec::new();
    let mut idx: u64 = first;
    while idx <= last
        invariant
            first <= idx <= last + 1,
            last * 4096 <= u64::MAX,
            pages@ == Seq::new((idx - first) as nat, |k: int| ((first + k) * 4096) as u64),
        decreases last + 1 - idx,
    {
        assert(idx * 4096 <= last * 4096) by (nonlinear_arith)
            requires
                idx <= last,
        ;
        pages.push(idx * 4096);
        idx = idx + 1;
        assert(pages@ =~= Seq::new((idx - first) as nat, |k: int| ((first + k) * 4096) as u64));
    }
    (MappedRegion { virt, phys, len }, pages)
}

/// What happens to one page of a register window, given what the page
/// translates to now: whether a page-table entry must be added for it
/// first (only where it is `None`), and the flags its entry then gets.
pub fn mmio_page(translated: Option<u64>) -> (r: (bool, u64))
    ensures
        r.0 == translated is None,
        r.1 == MMIO_PAGE_FLAGS,
{
    (translated.is_none(), MMIO_PAGE_FLAGS)
}

/// Maps physical ranges for the register accessors.
#[derive(Clone, Copy, Debug, PartialEq, Eq, Structural)]
pub struct MemoryMapper;

impl MemoryMapper {
    /// Virtual address of physical address `phys_base` in the window that
    /// maps all physical memory at `phys_offset`; never zero.
    pub fn map(phys_offset: usize, phys_base: usize) -> (r: usize)
        requires
            phys_offset + phys_base <= usize::MAX,
            phys_offset + phys_base != 0,
        ensures
            r == phys_offset + phys_base,
            r != 0,
    {
        phys_offset + phys_base
    }
}

} // verus!
