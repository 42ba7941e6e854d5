//! x86_64 four-level paging: page-table entries and one step of the
//! hardware page walk.

use vstd::prelude::*;
use x86_64::structures::paging::page_table::{FrameError as X86FrameError, PageTableEntry};
use x86_64::structures::paging::{PageTableFlags, PhysFrame, Size1GiB, Size2MiB};
use x86_64::{PhysAddr, VirtAddr};

verus! {

/// Bits 51:12 of an entry: the physical address it maps.
pub const PHYS_ADDR_MASK: u64 = 0x000F_FFFF_FFFF_F000;

/// Every bit that `PageTableFlags` names: bits 11:0 and 63:52.
pub const PAGE_FLAGS_ALL: u64 = 0xFFF0_0000_0000_0FFF;

pub const FLAG_PRESENT: u64 = 0x1;
pub const FLAG_WRITABLE: u64 = 0x2;
pub const FLAG_USER_ACCESSIBLE: u64 = 0x4;
pub const FLAG_WRITE_THROUGH: u64 = 0x8;
pub const FLAG_NO_CACHE: u64 = 0x10;
pub const FLAG_HUGE_PAGE: u64 = 0x80;
pub const FLAG_NO_EXECUTE: u64 = 0x8000_0000_0000_0000;

pub const SIZE_4K: u64 = 0x1000;
pub const SIZE_2M: u64 = 0x20_0000;
pub const SIZE_1G: u64 = 0x4000_0000;

/// Why an entry does not reference a 4 KiB frame or a next-level table.
#[derive(Clone, Copy, Debug, PartialEq, Eq, Structural)]
pub enum FrameError {
    /// The entry does not have the PRESENT flag set.
    FrameNotPresent,
    /// The entry has the HUGE_PAGE flag set.
    HugeFrame,
}

/// `PageTableFlags::from_bits_truncate(bits).bits()` (x86_64): the bits of
/// `bits` that name a flag; every other bit is dropped.
#[verifier::external_body]
pub(crate) fn flags_from_bits_truncate(bits: u64) -> (r: u64)
    ensures
        r == bits & PAGE_FLAGS_ALL,
{
    PageTableFlags::from_bits_truncate(bits).bits()
}

/// `PageTableFlags::from_bits(bits)` (x86_64): the flags when every set bit
/// of `bits` names a flag, `None` otherwise.
#[verifier::external_body]
pub(crate) fn flags_from_bits(bits: u64) -> (r: Option<u64>)
    ensures
        bits & !PAGE_FLAGS_ALL == 0 ==> r == Some(bits),
        bits & !PAGE_FLAGS_ALL != 0 ==> r is None,
{
    match PageTableFlags::from_bits(bits) {
        Some(f) => Some(f.bits()),
        None => None,
    }
}

/// `PageTableEntry::frame()` (x86_64) of the entry with address `addr` and
/// flags `flags`: `FrameNotPresent` without PRESENT, `HugeFrame` with
/// HUGE_PAGE, else the 4 KiB frame starting at `addr`. The flags must not
/// touch the address bits: the entry stores `addr | flags`.
#[verifier::external_body]
fn entry_frame(addr: u64, flags: u64) -> (r: Result<u64, FrameError>)
    requires
        addr & !PHYS_ADDR_MASK == 0,
        flags & PHYS_ADDR_MASK == 0,
    ensures
        r == frame_of(addr, flags),
{
    let mut entry = PageTableEntry::new();
    entry.set_addr(PhysAddr::new(addr), PageTableFlags::from_bits_retain(flags));
    match entry.frame() {
        Ok(frame) => Ok(frame.start_address().as_u64()),
        Err(X86FrameError::FrameNotPresent) => Err(FrameError::FrameNotPresent),
        Err(X86FrameError::HugeFrame) => Err(FrameError::HugeFrame),
    }
}

/// The frame an entry with address `addr` and flags `flags` references.
pub open spec fn frame_of(addr: u64, flags: u64) -> Result<u64, FrameError> {
    if flags & FLAG_PRESENT == 0 {
        Err(FrameError::FrameNotPresent)
    } else if flags & FLAG_HUGE_PAGE != 0 {
        Err(FrameError::HugeFrame)
    } else {
        Ok(addr)
    }
}

/// `VirtAddr::p4_index` (x86_64): bits 47:39 of the address.
#[verifier::external_body]
fn p4_index(addr: u64) -> (r: u16)
    ensures
        r == (addr >> 39u64) % 512,
{
    u16::from(VirtAddr::new_truncate(addr).p4_index())
}

/// `VirtAddr::p3_index` (x86_64): bits 38:30 of the address.
#[verifier::external_body]
fn p3_index(addr: u64) -> (r: u16)
    ensures
        r == (addr >> 30u64) % 512,
{
    u16::from(VirtAddr::new_truncate(addr).p3_index())
}

/// `VirtAddr::p2_index` (x86_64): bits 29:21 of the address.
#[verifier::external_body]
fn p2_index(addr: u64) -> (r: u16)
    ensures
        r == (addr >> 21u64) % 512,
{
    u16::from(VirtAddr::new_truncate(addr).p2_index())
}

/// `VirtAddr::p1_index` (x86_64): bits 20:12 of the address.
#[verifier::external_body]
fn p1_index(addr: u64) -> (r: u16)
    ensures
        r == (addr >> 12u64) % 512,
{
    u16::from(VirtAddr::new_truncate(addr).p1_index())
}

/// `VirtAddr::page_offset` (x86_64): bits 11:0 of the address.
#[verifier::external_body]
fn page_offset(addr: u64) -> (r: u64)
    ensures
        r == addr % 4096,
{
    u64::from(VirtAddr::new_truncate(addr).page_offset())
}

/// `PhysFrame::<Size1GiB>::containing_address` (x86_64): the start of the
/// 1 GiB frame holding physical address `addr`.
#[verifier::external_body]
fn frame_start_1g(addr: u64) -> (r: u64)
    requires
        addr < 0x10_0000_0000_0000,
    ensures
        r == addr - addr % 0x4000_0000,
{
    let frame: PhysFrame<Size1GiB> = PhysFrame::containing_address(PhysAddr::new(addr));
    frame.start_address().as_u64()
}

/// `PhysFrame::<Size2MiB>::containing_address` (x86_64): the start of the
/// 2 MiB frame holding physical address `addr`.
#[verifier::external_body]
fn frame_start_2m(addr: u64) -> (r: u64)
    requires
        addr < 0x10_0000_0000_0000,
    ensures
        r == addr - addr % 0x20_0000,
{
    let frame: PhysFrame<Size2MiB> = PhysFrame::containing_address(PhysAddr::new(addr));
    frame.start_address().as_u64()
}

/// A 64-bit page-table entry, held as its raw value.
#[derive(Clone, Copy, Debug, PartialEq, Eq, Structural)]
pub struct PageEntry {
    entry: u64,
}

impl View for PageEntry {
    type V = u64;

    closed spec fn view(&self) -> u64 {
        self.entry
    }
}

impl PageEntry {
    /// The entry with raw value `entry`.
    pub fn new(entry: u64) -> (r: Self)
        ensures
            r@ == entry,
    {
        PageEntry { entry }
    }

    /// The raw value.
    pub fn bits(&self) -> (r: u64)
        ensures
            r == self@,
    {
        self.entry
    }

    /// The flag bits (everything but the address).
    pub fn flags(&self) -> (r: u64)
        ensures
            r == self@ & PAGE_FLAGS_ALL,
    {
        let e = self.entry;
        assert(e & !0x000F_FFFF_FFFF_F000u64 == e & 0xFFF0_0000_0000_0FFFu64) by (bit_vector);
        self.entry & !PHYS_ADDR_MASK
    }

    /// The physical address the entry maps (may be zero).
    pub fn addr(&self) -> (r: u64)
        ensures
            r == self@ & PHYS_ADDR_MASK,
            r & !PHYS_ADDR_MASK == 0,
            r < 0x10_0000_0000_0000,
            r % 4096 == 0,
    {
        let e = self.entry;
        let r = e & PHYS_ADDR_MASK;
        assert(r & !0x000F_FFFF_FFFF_F000u64 == 0 && r < 0x10_0000_0000_0000u64 && r % 4096 == 0) by (bit_vector)
            requires
                r == e & 0x000F_FFFF_FFFF_F000u64,
        ;
        r
    }

    /// Replaces the flags, keeping the address. `flags` names flags only.
    pub fn set_flags(&mut self, flags: u64)
        requires
            flags & !PAGE_FLAGS_ALL == 0,
        ensures
            final(self)@ == (old(self)@ & PHYS_ADDR_MASK) | flags,
    {
        self.entry = (self.entry & PHYS_ADDR_MASK) | flags;
    }

    /// Adds `flags` to the entry's flags, keeping the address and the
    /// flags already set. `flags` names flags only.
    pub fn add_flags(&mut self, flags: u64)
        requires
            flags & !PAGE_FLAGS_ALL == 0,
        ensures
            final(self)@ == old(self)@ | flags,
            final(self)@ & PHYS_ADDR_MASK == old(self)@ & PHYS_ADDR_MASK,
    {
        let e = self.entry;
        assert((e | flags) & 0x000F_FFFF_FFFF_F000u64 == e & 0x000F_FFFF_FFFF_F000u64) by (bit_vector)
            requires
                flags & !0xFFF0_0000_0000_0FFFu64 == 0,
        ;
        self.entry = self.entry | flags;
    }

    /// The 4 KiB frame or next-level table the entry references.
    pub fn frame(&self) -> (r: Result<u64, FrameError>)
        ensures
            r == frame_spec(self@),
    {
        let a = self.addr();
        let f = self.flags();
        let e = self.entry;
        assert((f & 1 == 0) == (e & 1 == 0) && (f & 0x80 == 0) == (e & 0x80 == 0) && f & 0x000F_FFFF_FFFF_F000u64
            == 0) by (bit_vector)
            requires
                f == e & 0xFFF0_0000_0000_0FFFu64,
        ;
        entry_frame(a, f)
    }
}

/// What `PageEntry::frame` returns for the raw entry `e`.
pub open spec fn frame_spec(e: u64) -> Result<u64, FrameError> {
    if e & FLAG_PRESENT == 0 {
        Err(FrameError::FrameNotPresent)
    } else if e & FLAG_HUGE_PAGE != 0 {
        Err(FrameError::HugeFrame)
    } else {
        Ok(e & PHYS_ADDR_MASK)
    }
}

/// Index into the table at walk step `level` (0 = PML4 ... 3 = PT) for `addr`.
pub open spec fn table_index_spec(addr: u64, level: u8) -> u16 {
    if level == 0 {
        ((addr >> 39u64) % 512) as u16
    } else if level == 1 {
        ((addr >> 30u64) % 512) as u16
    } else if level == 2 {
        ((addr >> 21u64) % 512) as u16
    } else {
        ((addr >> 12u64) % 512) as u16
    }
}

/// Index into the table at walk step `level` (0 = PML4 ... 3 = PT) for `addr`.
pub fn table_index(addr: u64, level: u8) -> (r: u16)
    requires
        level < 4,
    ensures
        r == table_index_spec(addr, level),
        r < 512,
{
    if level == 0 {
        p4_index(addr)
    } else if level == 1 {
        p3_index(addr)
    } else if level == 2 {
        p2_index(addr)
    } else {
        p1_index(addr)
    }
}

/// The outcome of reading one entry during a page walk.
#[derive(Clone, Copy, Debug, PartialEq, Eq, Structural)]
pub enum WalkStep {
    /// Continue with the table at this physical address.
    Next(u64),
    /// The address is not mapped.
    NotMapped,
    /// The address translates to this physical address.
    Mapped(u64),
}

/// The walk may continue past entry `e` at step `level`: huge entries are
/// only meaningful in the PDPT (1 GiB) and the PD (2 MiB).
pub open spec fn step_supported(level: u8, e: u64) -> bool {
    (level == 0 || level == 3) ==> !(frame_spec(e) matches Err(FrameError::HugeFrame))
}

/// One step of translating `addr`: the entry `e` read at step `level`.
pub open spec fn walk_step_spec(level: u8, e: u64, addr: u64) -> WalkStep {
    match frame_spec(e) {
        Ok(frame) => if level == 3 {
            WalkStep::Mapped((frame + addr % 4096) as u64)
        } else {
            WalkStep::Next(frame)
        },
        Err(FrameError::FrameNotPresent) => WalkStep::NotMapped,
        Err(FrameError::HugeFrame) => if level == 1 {
            let a = e & PHYS_ADDR_MASK;
            WalkStep::Mapped((a - a % SIZE_1G + addr % SIZE_1G) as u64)
        } else {
            let a = e & PHYS_ADDR_MASK;
            WalkStep::Mapped((a - a % SIZE_2M + addr % SIZE_2M) as u64)
        },
    }
}

/// Interprets the entry read at step `level` of the walk for `addr`.
pub fn translate_step(level: u8, entry: &PageEntry, addr: u64) -> (r: WalkStep)
    requires
        level < 4,
        step_supported(level, entry@),
    ensures
        r == walk_step_spec(level, entry@, addr),
        level < 3 && entry@ & FLAG_PRESENT != 0 && entry@ & FLAG_HUGE_PAGE == 0 ==> r == WalkStep::Next(
            entry@ & PHYS_ADDR_MASK,
        ),
        r is Mapped ==> level == 3 || entry@ & FLAG_HUGE_PAGE != 0,
        r is Next ==> level < 3,
{
    proof {
        lemma_walk_step_shape(level, entry@, addr);
    }
    match entry.frame() {
        Ok(frame) => {
            if level == 3 {
                let off = page_offset(addr);
                assert(frame + off < 0x10_0000_0000_0000) by {
                    let e = entry@;
                    assert(frame == e & PHYS_ADDR_MASK);
                    assert(e & 0x000F_FFFF_FFFF_F000u64 <= 0x000F_FFFF_FFFF_F000u64) by (bit_vector);
                }
                WalkStep::Mapped(frame + off)
            } else {
                WalkStep::Next(frame)
            }
        },
        Err(FrameError::FrameNotPresent) => WalkStep::NotMapped,
        Err(FrameError::HugeFrame) => {
            let a = entry.addr();
            if level == 1 {
                let start = frame_start_1g(a);
                WalkStep::Mapped(start + addr % SIZE_1G)
            } else {
                let start = frame_start_2m(a);
                WalkStep::Mapped(start + addr % SIZE_2M)
            }
        },
    }
}

/// The outcome of reading one entry while looking for the entry that maps
/// an address.
#[derive(Clone, Copy, Debug, PartialEq, Eq, Structural)]
pub enum LeafStep {
    /// Continue with the table at this physical address.
    Next(u64),
    /// The address is not mapped.
    NotMapped,
    /// This entry maps the address, with a page of this many bytes.
    Leaf(u64),
}

/// One step of the search for the entry that maps an address: the entry `e`
/// read at step `level`.
pub open spec fn leaf_step_spec(level: u8, e: u64) -> LeafStep {
    match frame_spec(e) {
        Ok(frame) => if level == 3 {
            LeafStep::Leaf(SIZE_4K)
        } else {
            LeafStep::Next(frame)
        },
        Err(FrameError::FrameNotPresent) => LeafStep::NotMapped,
        Err(FrameError::HugeFrame) => LeafStep::Leaf(if level == 1 { SIZE_1G } else { SIZE_2M }),
    }
}

/// Interprets the entry read at step `level` of the search for the entry
/// that maps an address.
pub fn leaf_step(level: u8, entry: &PageEntry) -> (r: LeafStep)
    requires
        level < 4,
        step_supported(level, entry@),
    ensures
        r == leaf_step_spec(level, entry@),
        level < 3 && entry@ & FLAG_PRESENT != 0 && entry@ & FLAG_HUGE_PAGE == 0 ==> r == LeafStep::Next(
            entry@ & PHYS_ADDR_MASK,
        ),
        r matches LeafStep::Leaf(size) ==> (level == 3 && size == SIZE_4K) || (entry@ & FLAG_HUGE_PAGE != 0
            && (level == 1 ==> size == SIZE_1G) && (level == 2 ==> size == SIZE_2M)),
        r is Next ==> level < 3,
        r is NotMapped <==> entry@ & FLAG_PRESENT == 0,
{
    proof {
        lemma_leaf_step_shape(level, entry@);
    }
    match entry.frame() {
        Ok(next) => if level == 3 {
            LeafStep::Leaf(SIZE_4K)
        } else {
            LeafStep::Next(next)
        },
        Err(FrameError::FrameNotPresent) => LeafStep::NotMapped,
        Err(FrameError::HugeFrame) => LeafStep::Leaf(if level == 1 { SIZE_1G } else { SIZE_2M }),
    }
}

/// Where `pkey_mprotect` goes on after tagging the page of `size` bytes
/// found at `offset` bytes into a range of `length` bytes: the next offset,
/// or `None` once the range is covered.
pub fn next_protect_offset(offset: u64, size: u64, length: u64) -> (r: Option<u64>)
    ensures
        r == (if offset + size < length { Some((offset + size) as u64) } else { None::<u64> }),
{
    if size >= length || offset >= length - size {
        None
    } else {
        Some(offset + size)
    }
}

/// A step of the page walk for `addr` maps the address only at the last
/// level or on a HUGE_PAGE entry: a present entry without HUGE_PAGE met
/// before the last level leads to the table at its address, and an entry
/// without PRESENT leaves the address unmapped.
pub proof fn lemma_walk_step_shape(level: u8, e: u64, addr: u64)
    requires
        level < 4,
    ensures
        level < 3 && e & FLAG_PRESENT != 0 && e & FLAG_HUGE_PAGE == 0 ==> walk_step_spec(level, e, addr)
            == WalkStep::Next(e & PHYS_ADDR_MASK),
        walk_step_spec(level, e, addr) is Mapped ==> level == 3 || e & FLAG_HUGE_PAGE != 0,
        walk_step_spec(level, e, addr) is Next ==> level < 3 && e & FLAG_PRESENT != 0,
        walk_step_spec(level, e, addr) is NotMapped <==> e & FLAG_PRESENT == 0,
        level == 3 && e & FLAG_PRESENT != 0 && e & FLAG_HUGE_PAGE == 0 ==> walk_step_spec(level, e, addr)
            == WalkStep::Mapped(((e & PHYS_ADDR_MASK) + addr % SIZE_4K) as u64),
{
}

/// The search for the entry that maps an address descends through present
/// entries without HUGE_PAGE before the last level; it stops at a 4 KiB
/// entry only at the last level, and at a HUGE_PAGE entry with the page
/// size of its level.
pub proof fn lemma_leaf_step_shape(level: u8, e: u64)
    requires
        level < 4,
    ensures
        level < 3 && e & FLAG_PRESENT != 0 && e & FLAG_HUGE_PAGE == 0 ==> leaf_step_spec(level, e)
            == LeafStep::Next(e & PHYS_ADDR_MASK),
        leaf_step_spec(level, e) matches LeafStep::Leaf(size) ==> (level == 3 && size == SIZE_4K) || (e
            & FLAG_HUGE_PAGE != 0 && (level == 1 ==> size == SIZE_1G) && (level == 2 ==> size == SIZE_2M)),
        leaf_step_spec(level, e) is Next ==> level < 3,
        leaf_step_spec(level, e) is NotMapped <==> e & FLAG_PRESENT == 0,
{
}

/// A translation keeps the offset of `addr` within the page it maps: 4 KiB
/// at the last step, 2 MiB for a huge PD entry, 1 GiB for a huge PDPT entry.
pub proof fn lemma_translation_keeps_offset(level: u8, e: u64, addr: u64)
    requires
        level < 4,
        step_supported(level, e),
    ensures
        walk_step_spec(level, e, addr) matches WalkStep::Mapped(p) ==> {
            &&& level == 3 ==> p % SIZE_4K == addr % SIZE_4K
            &&& level == 2 ==> p % SIZE_2M == addr % SIZE_2M
            &&& level == 1 ==> p % SIZE_1G == addr % SIZE_1G
        },
{
    let a = e & PHYS_ADDR_MASK;
    assert(a % 4096 == 0 && a < 0x10_0000_0000_0000u64) by (bit_vector)
        requires
            a == e & 0x000F_FFFF_FFFF_F000u64,
    ;
    assert(((a as int) + (addr as int) % 4096) % 4096 == (addr as int) % 4096) by (nonlinear_arith)
        requires
            a % 4096 == 0,
    ;
    assert(((a as int) - (a as int) % 0x20_0000 + (addr as int) % 0x20_0000) % 0x20_0000 == (addr as int)
        % 0x20_0000) by (nonlinear_arith);
    assert(((a as int) - (a as int) % 0x4000_0000 + (addr as int) % 0x4000_0000) % 0x4000_0000 == (addr as int)
        % 0x4000_0000) by (nonlinear_arith);
}

} // verus!
