use std::cell::RefCell;
use kernel::virtio::hal::MappedRegion;
use kernel::virtio::net::{
    ctrl_queue_index, has_ctrl_queue, has_multiqueue, max_queue_pairs, needs_pair_setup,
    negotiate_features, notify_offset, pair_queue_indices, post_rx_pool, queue_pair_count,
    supports_modern, udp_tx_server, VirtioNetPci, VirtioNetQueue, BUF_LEN, UDP_TX_BATCH_SIZE,
};
use kernel::virtio::net::{ctrl_ack_ok, mq_pairs_request, CTRL_ACK_OFFSET, CTRL_MQ_REQ_LEN};
use kernel::virtio::queue::{UsedElem, VirtQueue, DESC_F_WRITE};
use kernel::virtio::regs::{Common, DRIVER_FEATURES, VIRTIO_F_VERSION_1, VIRTIO_NET_F_MQ};

const TX_POOL: MappedRegion = MappedRegion { virt: 0x40_0000, phys: 0x8_0000, len: 4 * BUF_LEN };
const RX_POOL: MappedRegion = MappedRegion { virt: 0x50_0000, phys: 0x9_0000, len: 4 * BUF_LEN };

fn pair() -> VirtioNetQueue {
    let mut rx = VirtQueue::new(0, 4, 0, 0x1000, 0x2000, 0x3000);
    post_rx_pool(&mut rx, &RX_POOL);
    let tx = VirtQueue::new(1, 4, 0, 0x4000, 0x5000, 0x6000);
    VirtioNetQueue::new(rx, tx, RX_POOL, TX_POOL)
}

fn used_ring(ids: &[u32]) -> Vec<UsedElem> {
    let mut ring = vec![UsedElem { id: 0, len: 0 }; 4];
    for (i, id) in ids.iter().enumerate() {
        ring[i % 4] = UsedElem { id: *id, len: 0 };
    }
    ring
}

#[test]
fn rx_pool_is_posted_in_order() {
    let mut rx = VirtQueue::new(0, 4, 0, 0x1000, 0x2000, 0x3000);
    post_rx_pool(&mut rx, &RX_POOL);
    assert_eq!(rx.num_free(), 0);
    for i in 0..4u16 {
        let d = rx.desc_entry(i);
        assert_eq!(d.addr, 0x9_0000 + i as u64 * 2048);
        assert_eq!(d.len, 2048);
        assert!(d.len as usize >= 12 + 1514);
        assert_eq!(d.flags, DESC_F_WRITE);
        assert_eq!(rx.avail_entry(i), i);
    }
    assert_eq!(rx.flush(), Some(0));
}

#[test]
fn every_tx_slot_starts_free() {
    let q = pair();
    assert_eq!(q.tx_available(), 4);
}

/// A fill callback that records each `(buffer, slot)` it is handed and
/// returns the next length of `lens`.
fn recorder<'a>(calls: &'a RefCell<Vec<(u64, u16)>>, lens: &'a [usize]) -> impl Fn(u64, u16) -> usize + 'a {
    move |buf, slot| {
        let mut c = calls.borrow_mut();
        let len = lens[c.len() % lens.len()];
        c.push((buf, slot));
        len
    }
}

#[test]
fn transmit_batch_posts_the_last_free_slots_and_flushes() {
    let mut q = pair();
    let ring = used_ring(&[]);
    let calls = RefCell::new(Vec::new());
    let (n, published) = q.transmit_batch(3, recorder(&calls, &[10, 60, 1514]), 0, &ring);
    // slots come off the end of the free list: 3, 2, 1; the callback sees
    // each buffer and slot once, in posting order
    assert_eq!(n, 3);
    assert_eq!(
        *calls.borrow(),
        vec![(0x40_0000 + 3 * 2048, 3), (0x40_0000 + 2 * 2048, 2), (0x40_0000 + 2048, 1)]
    );
    assert_eq!(published, Some(0));
    assert_eq!(q.tx_available(), 1);
    // each descriptor carries the header and the length its callback returned
    let tx = q.tx_queue();
    assert_eq!(tx.desc_entry(0).len, 12 + 10);
    assert_eq!(tx.desc_entry(1).len, 12 + 60);
    assert_eq!(tx.desc_entry(2).len, 12 + 1514);
    assert_eq!(tx.desc_entry(0).addr, 0x8_0000 + 3 * 2048);
    // staged in order in the available ring
    assert_eq!((tx.avail_entry(0), tx.avail_entry(1), tx.avail_entry(2)), (0, 1, 2));
    // asking for more than is free sends only what is free
    let calls = RefCell::new(Vec::new());
    let (n, published) = q.transmit_batch(10, recorder(&calls, &[10]), 0, &ring);
    assert_eq!(n, 1);
    assert_eq!(*calls.borrow(), vec![(0x40_0000, 0)]);
    assert_eq!(published, Some(3));
    assert_eq!(q.tx_available(), 0);
    // nothing free, nothing completed: nothing sent, the callback is not called
    let calls = RefCell::new(Vec::new());
    let (n, published) = q.transmit_batch(10, recorder(&calls, &[10]), 0, &ring);
    assert_eq!(n, 0);
    assert!(calls.borrow().is_empty());
    assert_eq!(published, None);
}

#[test]
fn reclaim_returns_completed_slots_in_completion_order() {
    let mut q = pair();
    let none = used_ring(&[]);
    let calls = RefCell::new(Vec::new());
    let (n, _) = q.transmit_batch(2, recorder(&calls, &[20]), 0, &none);
    assert_eq!(n, 2);
    assert_eq!(q.tx_available(), 2);
    // descriptors 0 (slot 3) and 1 (slot 2) were posted; the device completes 1 then 0
    let ring = used_ring(&[1, 0]);
    assert!(q.reclaim_tx(2, &ring));
    assert_eq!(q.tx_available(), 4);
    assert_eq!(q.tx_queue().last_used_idx(), 2);
    // the most recently reclaimed slot (3, from descriptor 0) is handed out first
    let calls = RefCell::new(Vec::new());
    let (n, _) = q.transmit_batch(1, recorder(&calls, &[20]), 2, &ring);
    assert_eq!(n, 1);
    assert_eq!(*calls.borrow(), vec![(0x40_0000 + 3 * 2048, 3)]);
}

#[test]
fn reclaim_refuses_a_repeated_completion() {
    let mut q = pair();
    let none = used_ring(&[]);
    let calls = RefCell::new(Vec::new());
    q.transmit_batch(2, recorder(&calls, &[20]), 0, &none);
    // descriptor 0 is reported twice: nothing is taken back
    let ring = used_ring(&[0, 0]);
    assert!(!q.reclaim_tx(2, &ring));
    assert_eq!(q.tx_available(), 2);
    assert_eq!(q.tx_queue().last_used_idx(), 0);
}

#[test]
fn reclaim_refuses_a_descriptor_not_in_flight() {
    let mut q = pair();
    let none = used_ring(&[]);
    let calls = RefCell::new(Vec::new());
    q.transmit_batch(1, recorder(&calls, &[20]), 0, &none);
    // only descriptor 0 is in flight; 3 is free and 9 does not exist
    assert!(!q.reclaim_tx(1, &used_ring(&[3])));
    assert!(!q.reclaim_tx(1, &used_ring(&[9])));
    assert_eq!(q.tx_available(), 3);
    // a transmit with such completions still sends from what is free
    let (n, _) = q.transmit_batch(4, recorder(&calls, &[20]), 1, &used_ring(&[9]));
    assert_eq!(n, 3);
    assert_eq!(q.tx_queue().last_used_idx(), 0);
    // the genuine completion is taken back afterwards
    assert!(q.reclaim_tx(1, &used_ring(&[0])));
    assert_eq!(q.tx_available(), 1);
}

#[test]
fn flush_reports_both_rings() {
    let mut q = pair();
    // the RX pool was posted but not yet published
    assert_eq!(q.flush_rx(), Some(0));
    assert_eq!(q.flush_rx(), None);
    assert_eq!(q.flush_tx(), None);
    let none = used_ring(&[]);
    let mut batch = q.tx_batch(0, &none);
    assert_eq!(batch.available(), 4);
    let buf = batch.take_buffer().unwrap();
    assert_eq!(buf.slot, 3);
    assert_eq!(buf.buf, 0x40_0000 + 3 * 2048);
    assert_eq!(buf.as_mut_slice(12, 100), 0x40_0000 + 3 * 2048 + 12);
    buf.submit(112);
    assert_eq!(q.tx_available(), 3);
    // the submitted buffer is staged in the avail ring, not yet published
    assert_eq!(q.tx_queue().avail_entry(0), 0);
    assert_eq!(q.tx_queue().published_idx(), 0);
    assert_eq!(q.tx_queue().desc_entry(0).len, 112);
    assert_eq!(q.tx_queue().desc_entry(0).addr, 0x8_0000 + 3 * 2048);
    assert_eq!(q.flush(), (None, Some(0)));
}

#[test]
fn finish_flushes_the_batch() {
    let mut q = pair();
    let none = used_ring(&[]);
    let batch = q.tx_batch(0, &none);
    assert_eq!(batch.finish(), (Some(0), None));
}

#[test]
fn feature_negotiation() {
    let offered = VIRTIO_F_VERSION_1 | VIRTIO_NET_F_MQ | (1 << 0) | (1 << 40);
    let wanted = negotiate_features(offered);
    assert_eq!(wanted, VIRTIO_F_VERSION_1 | VIRTIO_NET_F_MQ);
    assert!(supports_modern(wanted));
    assert!(has_multiqueue(wanted));
    assert!(!has_ctrl_queue(wanted));
    assert!(!supports_modern(negotiate_features(VIRTIO_NET_F_MQ)));
    assert_eq!(negotiate_features(u64::MAX), DRIVER_FEATURES);
    assert_eq!(DRIVER_FEATURES, 0x1_2043_8020);
}

#[test]
fn queue_pairs_are_clamped() {
    assert_eq!(max_queue_pairs(true, 8), 8);
    assert_eq!(max_queue_pairs(false, 8), 1);
    assert_eq!(queue_pair_count(4, 8), 4);
    assert_eq!(queue_pair_count(16, 8), 8);
    assert_eq!(queue_pair_count(0, 8), 1);
    assert_eq!(queue_pair_count(4, 0), 1);
    assert_eq!(pair_queue_indices(0), (0, 1));
    assert_eq!(pair_queue_indices(3), (6, 7));
    assert_eq!(ctrl_queue_index(8), 16);
    assert_eq!(notify_offset(3, 4), 12);
    assert!(needs_pair_setup(true, 2));
    assert!(!needs_pair_setup(true, 1));
    assert!(!needs_pair_setup(false, 4));
}

#[test]
fn take_queue_hands_out_each_pair_once() {
    let mut dev = VirtioNetPci::new(Common(0x7000), 0x7100, 0x7200, None, [1, 2, 3, 4, 5, 6], 7);
    assert_eq!(dev.num_queue_pairs(), 0);
    let mut rx = VirtQueue::new(0, 4, 0, 0x1000, 0x2000, 0x3000);
    post_rx_pool(&mut rx, &RX_POOL);
    let tx = VirtQueue::new(1, 4, 0, 0x4000, 0x5000, 0x6000);
    dev.add_queue_pair(rx, tx, RX_POOL, TX_POOL);
    assert_eq!(dev.num_queue_pairs(), 1);
    assert_eq!(dev.mac, [1, 2, 3, 4, 5, 6]);
    assert!(dev.has_queue(0));
    assert!(!dev.has_queue(1));
    assert!(dev.ctrl_queue().is_none());
    let q = dev.take_queue(0);
    assert!(!dev.has_queue(0));
    assert_eq!(q.tx_available(), 4);
    assert_eq!(q.rx_queue().num_free(), 0);
    assert_eq!(q.tx_queue().num_free(), 4);
    assert_eq!(q.tx_queue().queue_index, 1);
}

#[test]
fn udp_tx_round_sends_what_the_pool_holds() {
    let mut q = pair();
    let ring = used_ring(&[]);
    assert!(UDP_TX_BATCH_SIZE > 4);
    let written = RefCell::new(Vec::new());
    let (n, published) = udp_tx_server(&mut q, |buf, slot| written.borrow_mut().push((buf, slot)), 0, &ring);
    assert_eq!(n, 4);
    assert_eq!(written.borrow().len(), 4);
    assert_eq!(written.borrow()[0], (0x40_0000 + 3 * 2048, 3));
    assert_eq!(q.tx_queue().desc_entry(0).len, 12 + 10);
    assert_eq!(published, Some(0));
    assert_eq!(q.tx_available(), 0);
}

#[test]
fn queue_pair_request_bytes() {
    assert_eq!(mq_pairs_request(4), vec![4, 0, 4, 0]);
    assert_eq!(mq_pairs_request(0x0102), vec![4, 0, 2, 1]);
    assert_eq!(CTRL_MQ_REQ_LEN, 4);
    assert_eq!(CTRL_ACK_OFFSET, 64);
    assert!(ctrl_ack_ok(0));
    assert!(!ctrl_ack_ok(1));
}

#[test]
fn set_queue_pairs_posts_request_and_ack() {
    let ctrl = VirtQueue::new(2, 4, 0, 0x7000, 0x7400, 0x7800);
    let mut dev = VirtioNetPci::new(Common(0x7000), 0x7100, 0x7200, Some(ctrl), [0; 6], 0);
    let scratch = MappedRegion { virt: 0x60_0000, phys: 0xA_0000, len: 4096 };
    let (head, published) = dev.set_queue_pairs(&scratch);
    assert_eq!(head, 0);
    assert_eq!(published, Some(0));
    let q = dev.ctrl_queue().unwrap();
    let req = q.desc_entry(0);
    assert_eq!((req.addr, req.len, req.next), (0xA_0000, 4, 1));
    let ack = q.desc_entry(1);
    assert_eq!((ack.addr, ack.len, ack.flags), (0xA_0040, 1, DESC_F_WRITE));
    // the device completes the chain
    let done = dev.ctrl_pop_used(1, UsedElem { id: 0, len: 1 });
    assert_eq!(done, Some((0x60_0000, 1)));
    // only the head descriptor goes back to the free list
    assert_eq!(dev.ctrl_queue().unwrap().num_free(), 3);
}
