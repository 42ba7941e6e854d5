use kernel::paging::{
    leaf_step, next_protect_offset, table_index, translate_step, FrameError, LeafStep, PageEntry, WalkStep,
    FLAG_HUGE_PAGE, FLAG_PRESENT, FLAG_USER_ACCESSIBLE, FLAG_WRITABLE,
};
use kernel::pk::{get_frame_protection_key, set_frame_protection_key};
use kernel::syscall::{syscall_dispatch, Syscall, SyscallRegs, SYS_ADD_FLAGS_TO_FRAME};

fn add_flags_request(flags: u64) -> Option<u64> {
    let regs = SyscallRegs {
        rax: SYS_ADD_FLAGS_TO_FRAME,
        rbx: 0,
        rcx: 0,
        rdx: 0,
        rsi: flags,
        rdi: 0x1000,
        rbp: 0,
        r8: 0,
        r9: 0,
        r10: 0,
        r11: 0,
        r12: 0,
        r13: 0,
        r14: 0,
        r15: 0,
    };
    match syscall_dispatch(&regs) {
        Syscall::AddFlagsToFrame { flags, .. } => flags,
        other => panic!("unexpected {:?}", other),
    }
}

#[test]
fn flag_bits_are_checked_by_the_flags_type() {
    assert_eq!(add_flags_request(0x7), Some(0x7));
    assert_eq!(add_flags_request(1 << 62), Some(1 << 62));
    assert_eq!(add_flags_request(1 << 12), None);
    assert_eq!(add_flags_request(0x0012_3007), None);
}

#[test]
fn setting_a_key_keeps_address_and_flags() {
    let mut e = PageEntry::new(0x8000_0000_0012_3067);
    set_frame_protection_key(&mut e, 0xA);
    assert_eq!(e.bits(), 0xD000_0000_0012_3067);
    assert_eq!(get_frame_protection_key(&e), 0xA);
    set_frame_protection_key(&mut e, 0);
    assert_eq!(e.bits(), 0x8000_0000_0012_3067);
}

#[test]
fn entry_fields() {
    let e = PageEntry::new(0x8000_0000_0012_3067);
    assert_eq!(e.addr(), 0x12_3000);
    assert_eq!(e.flags(), 0x8000_0000_0000_0067);
    assert_eq!(e.frame(), Ok(0x12_3000));
    assert_eq!(PageEntry::new(0x12_3066).frame(), Err(FrameError::FrameNotPresent));
    assert_eq!(PageEntry::new(0x12_3000 | FLAG_PRESENT | FLAG_HUGE_PAGE).frame(), Err(FrameError::HugeFrame));
    let mut e = PageEntry::new(0x12_3001);
    e.set_flags(FLAG_PRESENT | FLAG_WRITABLE);
    assert_eq!(e.bits(), 0x12_3003);
}

#[test]
fn indices_of_an_address() {
    let addr: u64 = (5 << 39) | (6 << 30) | (7 << 21) | (8 << 12) | 0x123;
    assert_eq!(table_index(addr, 0), 5);
    assert_eq!(table_index(addr, 1), 6);
    assert_eq!(table_index(addr, 2), 7);
    assert_eq!(table_index(addr, 3), 8);
    assert_eq!(table_index(0xFFFF_8000_0000_0000, 0), 256);
}

#[test]
fn walk_steps() {
    let addr: u64 = 0x7F12_3456_7ABC;
    let table = PageEntry::new(0x5000 | FLAG_PRESENT | FLAG_WRITABLE);
    assert_eq!(translate_step(0, &table, addr), WalkStep::Next(0x5000));
    assert_eq!(translate_step(2, &PageEntry::new(0x5000), addr), WalkStep::NotMapped);
    assert_eq!(translate_step(3, &PageEntry::new(0x9000 | FLAG_PRESENT), addr), WalkStep::Mapped(0x9ABC));
    // 2 MiB page at 0x4000_0000: keeps the low 21 bits of the address
    let huge2m = PageEntry::new(0x4000_0000 | FLAG_PRESENT | FLAG_HUGE_PAGE);
    assert_eq!(translate_step(2, &huge2m, addr), WalkStep::Mapped(0x4000_0000 + (addr % 0x20_0000)));
    // 1 GiB page at 0x1_0000_0000: keeps the low 30 bits
    let huge1g = PageEntry::new(0x1_0000_0000 | FLAG_PRESENT | FLAG_HUGE_PAGE);
    assert_eq!(translate_step(1, &huge1g, addr), WalkStep::Mapped(0x1_0000_0000 + (addr % 0x4000_0000)));
    // an unaligned huge address is rounded down to its frame
    let odd = PageEntry::new(0x4010_0000 | FLAG_PRESENT | FLAG_HUGE_PAGE);
    assert_eq!(translate_step(2, &odd, 0x1234), WalkStep::Mapped(0x4000_1234));
}

#[test]
fn leaf_search_stops_at_the_mapping_entry() {
    let table = PageEntry::new(0x5000 | FLAG_PRESENT | FLAG_WRITABLE);
    assert_eq!(leaf_step(0, &table), LeafStep::Next(0x5000));
    assert_eq!(leaf_step(3, &table), LeafStep::Leaf(4096));
    let huge = PageEntry::new(0x4000_0000 | FLAG_PRESENT | FLAG_HUGE_PAGE);
    assert_eq!(leaf_step(1, &huge), LeafStep::Leaf(1 << 30));
    assert_eq!(leaf_step(2, &huge), LeafStep::Leaf(2 << 20));
    assert_eq!(leaf_step(2, &PageEntry::new(0x5000)), LeafStep::NotMapped);
}

#[test]
fn adding_flags_keeps_address_and_old_flags() {
    let mut e = PageEntry::new(0x7000 | FLAG_PRESENT);
    e.add_flags(FLAG_USER_ACCESSIBLE | FLAG_WRITABLE);
    assert_eq!(e.bits(), 0x7000 | FLAG_PRESENT | FLAG_USER_ACCESSIBLE | FLAG_WRITABLE);
    e.add_flags(FLAG_PRESENT);
    assert_eq!(e.bits(), 0x7000 | FLAG_PRESENT | FLAG_USER_ACCESSIBLE | FLAG_WRITABLE);
}

#[test]
fn protection_walks_page_by_page_until_the_range_is_covered() {
    assert_eq!(next_protect_offset(0, 4096, 3 * 4096), Some(4096));
    assert_eq!(next_protect_offset(2 * 4096, 4096, 3 * 4096), None);
    assert_eq!(next_protect_offset(0, 2 << 20, 4096), None);
    assert_eq!(next_protect_offset(0, 4096, 4097), Some(4096));
    assert_eq!(next_protect_offset(u64::MAX - 1, 4096, u64::MAX), None);
}
