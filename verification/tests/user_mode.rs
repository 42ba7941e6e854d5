use kernel::user_mode::{user_pages, user_selector, USER_STACK_SIZE};

#[test]
fn user_selectors_ask_for_ring_3() {
    // GDT entries 3 and 4, as the GDT hands them out (RPL already 3)
    assert_eq!(user_selector(0x1B), 0x1B);
    assert_eq!(user_selector(0x23), 0x23);
    // a kernel selector of entry 1 becomes the same entry at ring 3
    assert_eq!(user_selector(0x08), 0x0B);
}

#[test]
fn pages_opened_to_user_code() {
    let stack_top = 0x20_0000 + USER_STACK_SIZE as u64;
    let pages = user_pages(0x1234, stack_top, 0x10_0000, 0x2001, 0x40_0000, 0x40_2000);
    assert_eq!(
        pages,
        vec![0x1234, stack_top - 1, 0x10_0000, 0x10_1000, 0x10_2000, 0x40_0000, 0x40_1000]
    );
}

#[test]
fn empty_ranges_open_nothing() {
    let pages = user_pages(0x5000, 0x9000, 0x10_0000, 0, 0x40_0000, 0x40_0000);
    assert_eq!(pages, vec![0x5000, 0x8fff]);
}
