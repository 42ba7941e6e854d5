use kernel::bench::{counter_based_elapsed, ns_per_call, TimeBench};
use kernel::stack_trace::next_frame;
use kernel::virtio::hal::{mmio_page, mmio_region, HalImpl, MappedRegion, MemoryMapper, MMIO_PAGE_FLAGS, PAGE_SIZE};
use kernel::virtio::regs::{net_hdr, Common, NET_HDR_LEN};

#[test]
fn frame_walk_moves_up_the_stack() {
    assert_eq!(next_frame(0x1000, 0x1040), Some(0x1040));
    assert_eq!(next_frame(0x1000, 0), None);
    assert_eq!(next_frame(0x1000, 0x0ff0), None);
    assert_eq!(next_frame(0x1000, 0x1000), None);
    assert_eq!(next_frame(0x1000, 0x1048), None);
}

#[test]
fn time_bench_counts_the_crossing_call() {
    let mut b = TimeBench::new(100, 50);
    let mut now = 100;
    while b.running() {
        now += 20;
        b.record_call(now);
    }
    assert_eq!(b.counter, 3);
    assert_eq!(b.elapsed, 60);
}

#[test]
fn averages() {
    assert_eq!(counter_based_elapsed(1_000, 4_500), 3_500);
    assert_eq!(ns_per_call(3_500, 1_000), 3);
    assert_eq!(ns_per_call(7, 7), 1);
}

#[test]
fn dma_and_mmio_addresses() {
    assert_eq!(HalImpl::dma_size(3), 3 * PAGE_SIZE);
    assert_eq!(HalImpl::mmio_phys_to_virt(0xffff_8000_0000_0000, 0xfebd_1000), 0xffff_8000_febd_1000);
    assert_eq!(MemoryMapper::map(0x1000_0000, 0x2000), 0x1000_2000);
    let r = MappedRegion { virt: 0x4000_0000, phys: 0x20_0000, len: 0x3000 };
    assert_eq!(r.at(0x10), (0x4000_0010, 0x20_0010));
    assert_eq!(r.at(0x3000), (0x4000_3000, 0x20_3000));
}

#[test]
fn feature_words_split_and_join() {
    let c = Common(0);
    let (lo, hi) = c.set_driver_features(0x0000_0001_0003_0020);
    assert_eq!((lo, hi), (0x0003_0020, 1));
    assert_eq!(c.device_features(lo, hi), 0x0000_0001_0003_0020);
    assert_eq!(c.device_features(0xffff_ffff, 0), 0xffff_ffff);
}

#[test]
fn transmit_header() {
    let h = net_hdr();
    assert_eq!(h.num_buffers, 1);
    assert_eq!(h.flags, 0);
    assert_eq!(h.gso_type, 0);
    assert_eq!(NET_HDR_LEN, 12);
}

#[test]
fn register_window_spans_its_pages() {
    let (r, pages) = mmio_region(0xFFFF_8000_0000_0000, 0xFEB0_0800, 0x1000);
    assert_eq!(r, MappedRegion { virt: 0xFFFF_8000_FEB0_0800, phys: 0xFEB0_0800, len: 0x1000 });
    assert_eq!(pages, vec![0xFFFF_8000_FEB0_0000, 0xFFFF_8000_FEB0_1000]);
    let (_, pages) = mmio_region(0xFFFF_8000_0000_0000, 0xFEB0_0000, 0x1000);
    assert_eq!(pages, vec![0xFFFF_8000_FEB0_0000]);
    let (_, pages) = mmio_region(0xFFFF_8000_0000_0000, 0xFEB0_0010, 0);
    assert_eq!(pages, vec![0xFFFF_8000_FEB0_0000]);
}

#[test]
fn register_pages_are_uncached_and_mapped_only_when_missing() {
    assert_eq!(mmio_page(None), (true, 0x4 | 0x8 | 0x10));
    assert_eq!(mmio_page(Some(0xFEB0_0000)), (false, MMIO_PAGE_FLAGS));
}
