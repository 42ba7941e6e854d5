use kernel::virtio::pci::{
    bar_base, bar_is_64, bar_size, cap_window, function_present, functions_to_probe, pci_scan, read16, read32,
    Bdf, CapError, Ecam, RawCap, VirtioCapabilities, CONFIG_SPACE_BYTES,
};

fn put32(cfg: &mut [u8], off: usize, v: u32) {
    cfg[off..off + 4].copy_from_slice(&v.to_le_bytes());
}

/// A vendor capability at `at` of type `ty`, pointing to `next`.
fn cap(cfg: &mut [u8], at: usize, next: u8, ty: u8, bar: u8, offset: u32, length: u32) {
    cfg[at] = 0x09;
    cfg[at + 1] = next;
    cfg[at + 2] = 16;
    cfg[at + 3] = ty;
    cfg[at + 4] = bar;
    put32(cfg, at + 8, offset);
    put32(cfg, at + 12, length);
}

fn virtio_config() -> Vec<u8> {
    let mut cfg = vec![0u8; CONFIG_SPACE_BYTES];
    cfg[0x06] = 0x10; // capability list present
    cfg[0x34] = 0x40;
    // a non-vendor capability (MSI-X) first
    cfg[0x40] = 0x11;
    cfg[0x41] = 0x50;
    cap(&mut cfg, 0x50, 0x64, 1, 4, 0x0000, 0x38);
    cap(&mut cfg, 0x64, 0x78, 2, 4, 0x3000, 0x1000);
    put32(&mut cfg, 0x64 + 16, 4);
    cap(&mut cfg, 0x78, 0x8C, 3, 4, 0x1000, 0x1000);
    cap(&mut cfg, 0x8C, 0x00, 4, 4, 0x2000, 0x1000);
    // BAR4: 64-bit memory BAR at 0x1_8000_0000
    put32(&mut cfg, 0x20, 0x8000_000C);
    put32(&mut cfg, 0x24, 0x1);
    // BAR0: I/O-space BAR
    put32(&mut cfg, 0x10, 0xC001);
    // BAR1: 32-bit memory BAR
    put32(&mut cfg, 0x14, 0xFEB0_0008);
    cfg
}

#[test]
fn config_offsets() {
    let e = Ecam::new(0xB000_0000);
    assert_eq!(e.addr(Bdf { bus: 0, device: 0, function: 0 }, 0), 0xB000_0000);
    assert_eq!(e.addr(Bdf { bus: 1, device: 2, function: 3 }, 0x34), 0xB000_0000 + 0x10_0000 + 0x1_0000 + 0x3000 + 0x34);
}

#[test]
fn little_endian_reads() {
    let cfg = [0x34u8, 0x12, 0x78, 0x56];
    assert_eq!(read16(&cfg, 0), 0x1234);
    assert_eq!(read32(&cfg, 0), 0x5678_1234);
}

#[test]
fn probe_functions() {
    assert_eq!(functions_to_probe(0x8086, 0x80), 8);
    assert_eq!(functions_to_probe(0x8086, 0x00), 1);
    assert_eq!(functions_to_probe(0xFFFF, 0x80), 1);
    assert!(function_present(0x1AF4));
    assert!(!function_present(0xFFFF));
}

#[test]
fn scan_picks_the_last_virtio_net() {
    let a = Bdf { bus: 0, device: 1, function: 0 };
    let b = Bdf { bus: 0, device: 3, function: 0 };
    let c = Bdf { bus: 0, device: 4, function: 0 };
    let devices = [(a, 0x1AF4, 0x1000), (b, 0x8086, 0x100E), (c, 0x1AF4, 0x1041)];
    assert_eq!(pci_scan(&devices), Some(c));
    assert_eq!(pci_scan(&devices[..2]), Some(a));
    assert_eq!(pci_scan(&devices[1..2]), None);
    // a virtio device that is not a NIC
    assert_eq!(pci_scan(&[(a, 0x1AF4, 0x1001)]), None);
    assert_eq!(pci_scan(&[]), None);
}

#[test]
fn discover_finds_all_four_capabilities() {
    let cfg = virtio_config();
    let caps = VirtioCapabilities::discover(&cfg).unwrap();
    assert_eq!(caps.common, RawCap { bar: 4, offset: 0, length: 0x38, notify_off_multiplier: 0 });
    assert_eq!(caps.notify, RawCap { bar: 4, offset: 0x3000, length: 0x1000, notify_off_multiplier: 4 });
    assert_eq!(caps.isr, RawCap { bar: 4, offset: 0x1000, length: 0x1000, notify_off_multiplier: 0 });
    assert_eq!(caps.device_cfg, RawCap { bar: 4, offset: 0x2000, length: 0x1000, notify_off_multiplier: 0 });
}

#[test]
fn discover_errors() {
    let mut cfg = virtio_config();
    cfg[0x06] = 0;
    assert_eq!(VirtioCapabilities::discover(&cfg), Err(CapError::NoCapabilityList));

    let mut cfg = virtio_config();
    cfg[0x50 + 3] = 9; // the common cfg capability becomes an unknown type
    assert_eq!(VirtioCapabilities::discover(&cfg), Err(CapError::MissingCommonCfg));

    let mut cfg = virtio_config();
    cfg[0x64 + 3] = 5;
    assert_eq!(VirtioCapabilities::discover(&cfg), Err(CapError::MissingNotifyCfg));

    let mut cfg = virtio_config();
    cfg[0x78] = 0x05; // not a vendor capability
    assert_eq!(VirtioCapabilities::discover(&cfg), Err(CapError::MissingIsrCfg));

    let mut cfg = virtio_config();
    cfg[0x78 + 1] = 0; // list ends before the device cfg
    assert_eq!(VirtioCapabilities::discover(&cfg), Err(CapError::MissingDeviceCfg));

    let mut cfg = virtio_config();
    cfg[0x8C + 1] = 0x40; // the last entry points back to the first
    assert_eq!(VirtioCapabilities::discover(&cfg), Err(CapError::CapabilityLoop));
}

#[test]
fn later_capability_of_a_type_wins() {
    let mut cfg = virtio_config();
    cfg[0x8C + 1] = 0xA0;
    cap(&mut cfg, 0xA0, 0x00, 1, 2, 0x500, 0x40);
    let caps = VirtioCapabilities::discover(&cfg).unwrap();
    assert_eq!(caps.common, RawCap { bar: 2, offset: 0x500, length: 0x40, notify_off_multiplier: 0 });
}

#[test]
fn bars() {
    let cfg = virtio_config();
    assert_eq!(bar_base(&cfg, 4), Ok(0x1_8000_0000));
    assert_eq!(bar_base(&cfg, 1), Ok(0xFEB0_0000));
    assert_eq!(bar_base(&cfg, 0), Err(CapError::IoSpaceBar));
    assert!(bar_is_64(0x8000_000C));
    assert!(!bar_is_64(0xFEB0_0008));
    // a 16 KiB 32-bit BAR and a 16 KiB 64-bit BAR
    assert_eq!(bar_size(0xFEB0_0000, 0xFFFF_C000, 0), 0x4000);
    assert_eq!(bar_size(0x8000_000C, 0xFFFF_C00C, 0xFFFF_FFFF), 0x4000);
    // a 64-bit BAR of 8 GiB
    assert_eq!(bar_size(0x4, 0x0000_000C, 0xFFFF_FFFE), 0x2_0000_0000);
}

#[test]
fn capability_windows() {
    let cfg = virtio_config();
    let c = RawCap { bar: 4, offset: 0x3000, length: 0x1000, notify_off_multiplier: 4 };
    assert_eq!(cap_window(&cfg, &c), Ok((0x1_8000_3000, 0x1000)));
    let empty = RawCap { length: 0, ..c };
    assert_eq!(cap_window(&cfg, &empty), Err(CapError::ZeroLength));
    let io = RawCap { bar: 0, ..c };
    assert_eq!(cap_window(&cfg, &io), Err(CapError::IoSpaceBar));
    let mut high = virtio_config();
    put32(&mut high, 0x20, 0xFFFF_F00C);
    put32(&mut high, 0x24, 0xFFFF_FFFF);
    let far = RawCap { offset: 0x2000, ..c };
    assert_eq!(cap_window(&high, &far), Err(CapError::AddressOverflow));
}
