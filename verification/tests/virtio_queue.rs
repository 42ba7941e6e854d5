use kernel::virtio::queue::{round_up, Desc, UsedElem, VirtQueue, DESC_F_NEXT, DESC_F_WRITE};

fn queue(size: u16) -> VirtQueue {
    VirtQueue::new(3, size, 0x5000, 0x10_0000, 0x20_0000, 0x30_0000)
}

#[test]
fn round_up_to_page() {
    assert_eq!(round_up(0, 4096), 0);
    assert_eq!(round_up(1, 4096), 4096);
    assert_eq!(round_up(4096, 4096), 4096);
    assert_eq!(round_up(4097, 4096), 8192);
    assert_eq!(round_up(13, 8), 16);
}

#[test]
fn region_sizes_of_a_256_entry_queue() {
    // 256 * 16 = 4096 descriptor bytes, 4 + 512 + 2 avail bytes, 4 + 2048 + 2 used bytes
    assert_eq!(VirtQueue::region_sizes(256), (4096, 4096, 4096));
    assert_eq!(VirtQueue::region_sizes(512), (8192, 4096, 8192));
}

#[test]
fn new_queue_links_every_descriptor() {
    let q = queue(4);
    assert_eq!(q.size(), 4);
    assert_eq!(q.num_free(), 4);
    assert_eq!(q.desc_phys(), 0x10_0000);
    assert_eq!(q.avail_phys(), 0x20_0000);
    assert_eq!(q.used_phys(), 0x30_0000);
    assert_eq!(q.queue_index, 3);
    assert_eq!(q.notify_addr, 0x5000);
    for i in 0..4u16 {
        assert_eq!(q.desc_entry(i), Desc { addr: 0, len: 0, flags: 0, next: i + 1 });
        assert_eq!(q.avail_entry(i), 0);
    }
    assert_eq!(q.published_idx(), 0);
    assert_eq!(q.last_used_idx(), 0);
}

#[test]
fn rx_and_tx_descriptors_are_handed_out_in_order() {
    let mut q = queue(4);
    let a = q.rx_add(0x1000, 0x9000, 256);
    let b = q.tx_add(0x1100, 0x9100, 60);
    assert_eq!((a, b), (0, 1));
    assert_eq!(q.desc_entry(0), Desc { addr: 0x9000, len: 256, flags: DESC_F_WRITE, next: 0 });
    assert_eq!(q.desc_entry(1), Desc { addr: 0x9100, len: 60, flags: 0, next: 0 });
    assert_eq!(q.avail_entry(0), 0);
    assert_eq!(q.avail_entry(1), 1);
    assert_eq!(q.num_free(), 2);
}

#[test]
fn flush_publishes_once() {
    let mut q = queue(4);
    assert_eq!(q.flush(), None);
    q.tx_add(0x1000, 0x9000, 10);
    q.tx_add(0x1100, 0x9100, 10);
    assert_eq!(q.flush(), Some(0));
    assert_eq!(q.published_idx(), 2);
    assert_eq!(q.flush(), None);
}

#[test]
fn completion_returns_the_posted_buffer_and_frees_the_descriptor() {
    let mut q = queue(4);
    let id = q.tx_add(0xABC0, 0x9000, 42);
    q.flush();
    // nothing completed yet
    assert_eq!(q.pop_used(0, UsedElem { id: 0, len: 0 }), None);
    assert_eq!(q.used_slot(), 0);
    let got = q.pop_used(1, UsedElem { id: id as u32, len: 42 });
    assert_eq!(got, Some((0xABC0, 42)));
    assert_eq!(q.num_free(), 4);
    assert_eq!(q.last_used_idx(), 1);
    // the freed descriptor is handed out first and links to the old head
    assert_eq!(q.desc_entry(id).next, 1);
    assert_eq!(q.rx_add(0xDEF0, 0x9900, 8), id);
}

#[test]
fn free_list_survives_a_full_ring() {
    let mut q = queue(2);
    let a = q.rx_add(0x100, 0x100, 1);
    let b = q.rx_add(0x200, 0x200, 1);
    assert_eq!(q.num_free(), 0);
    q.flush();
    assert_eq!(q.pop_used(2, UsedElem { id: b as u32, len: 1 }), Some((0x200, 1)));
    assert_eq!(q.pop_used(2, UsedElem { id: a as u32, len: 1 }), Some((0x100, 1)));
    assert_eq!(q.num_free(), 2);
    // LIFO: the last freed comes out first
    assert_eq!(q.rx_add(0x300, 0x300, 1), a);
    assert_eq!(q.rx_add(0x400, 0x400, 1), b);
}

#[test]
fn avail_ring_wraps_by_mask() {
    let mut q = queue(2);
    for round in 0..5u64 {
        let id = q.tx_add(0x1000 + round, 0x2000, 1);
        assert_eq!(q.avail_entry((round % 2) as u16), id);
        let last = q.last_used_idx();
        let slot = q.used_slot();
        assert_eq!(slot, last % 2);
        q.pop_used(last.wrapping_add(1), UsedElem { id: id as u32, len: 1 });
    }
}

#[test]
fn notification_follows_the_event_index() {
    let mut q = queue(8);
    for i in 0..3u64 {
        q.tx_add(0x1000 + i, 0x1000 + i, 1);
    }
    let old = q.flush().unwrap();
    assert_eq!(old, 0);
    // published 0..3; the device asked to be told about entry 1, 2 or 0: yes
    assert!(q.needs_notify(old, 0));
    assert!(q.needs_notify(old, 1));
    assert!(q.needs_notify(old, 2));
    // entry 3 or later is not part of this batch: no
    assert!(!q.needs_notify(old, 3));
    assert!(!q.needs_notify(old, 100));
    // wrap-around window 65535..2
    assert!(q.needs_notify(65535, 65535));
    assert!(q.needs_notify(65535, 0));
    assert!(!q.needs_notify(65535, 65534));
}

#[test]
fn chain_links_its_descriptors() {
    let mut q = queue(4);
    let parts = [(0x1000u64, 0x8000u64, 4u32, false), (0x1040, 0x8040, 1, true)];
    let head = q.chain_add(&parts);
    assert_eq!(head, 0);
    assert_eq!(q.desc_entry(0), Desc { addr: 0x8000, len: 4, flags: DESC_F_NEXT, next: 1 });
    assert_eq!(q.desc_entry(1), Desc { addr: 0x8040, len: 1, flags: DESC_F_WRITE, next: 0 });
    assert_eq!(q.avail_entry(0), 0);
    assert_eq!(q.num_free(), 2);
    assert_eq!(q.flush(), Some(0));
    assert_eq!(q.pop_used(1, UsedElem { id: 0, len: 1 }), Some((0x1000, 1)));
}

#[test]
fn completion_of_a_free_descriptor_moves_it_to_the_front() {
    let mut q = queue(4);
    let a = q.rx_add(0x100, 0x900, 8);
    let b = q.tx_add(0x200, 0xA00, 9);
    assert_eq!((a, b), (0, 1));
    let c = q.tx_add(0x300, 0xB00, 10);
    assert_eq!(c, 2);
    // descriptor 1 completes; the free list is then 1, 3
    assert_eq!(q.pop_used(5, UsedElem { id: 1, len: 4 }), Some((0x200, 4)));
    assert_eq!(q.num_free(), 2);
    // the device reports the free descriptor 3: its last buffer comes back
    // and it moves to the front, nothing is freed twice
    assert_eq!(q.pop_used(5, UsedElem { id: 3, len: 5 }), Some((0, 5)));
    assert_eq!(q.last_used_idx(), 2);
    assert_eq!(q.num_free(), 2);
    assert_eq!(q.desc_entry(3).next, 1);
    // the free descriptor 1 is reported again: it moves back to the front
    assert_eq!(q.pop_used(5, UsedElem { id: 1, len: 6 }), Some((0x200, 6)));
    assert_eq!(q.num_free(), 2);
    // the genuine completion of 2 still comes back
    assert_eq!(q.pop_used(5, UsedElem { id: 2, len: 7 }), Some((0x300, 7)));
    assert_eq!(q.num_free(), 3);
    assert_eq!(q.last_used_idx(), 4);
    assert_eq!(q.tx_add(0x400, 0xC00, 1), 2);
    assert_eq!(q.tx_add(0x500, 0xD00, 1), 1);
    assert_eq!(q.tx_add(0x600, 0xE00, 1), 3);
    assert_eq!(q.num_free(), 0);
}

#[test]
fn completions_are_checked_before_they_are_taken_back() {
    let mut q = queue(4);
    let a = q.tx_add(0x100, 0x100, 1);
    let b = q.tx_add(0x200, 0x200, 1);
    let ring = |ids: [u32; 2]| {
        let mut r = vec![UsedElem { id: 0, len: 0 }; 4];
        r[0] = UsedElem { id: ids[0], len: 0 };
        r[1] = UsedElem { id: ids[1], len: 0 };
        r
    };
    assert!(q.completions_valid(2, &ring([b as u32, a as u32])));
    assert!(q.completions_valid(0, &ring([9, 9])));
    assert!(!q.completions_valid(2, &ring([a as u32, a as u32])));
    assert!(!q.completions_valid(2, &ring([a as u32, 3])));
    assert!(!q.completions_valid(1, &ring([9, 0])));
    // the used ring must have one element per descriptor
    assert!(!q.completions_valid(1, &[UsedElem { id: 0, len: 0 }]));
}
