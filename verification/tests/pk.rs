use kernel::paging::PageEntry;
use kernel::pk::{get_frame_protection_key, has_pku, read_key, set_frame_protection_key, write_key, PkPermission};
use kernel::pkrs::{read_pkrs_key, write_pkrs_key, IA32_PKRS};
use kernel::pkru::{self as boot_pkru};

#[test]
fn permission_encodings() {
    assert_eq!(PkPermission::ReadWrite.bits(), 0b00);
    assert_eq!(PkPermission::ReadOnly.bits(), 0b10);
    assert_eq!(PkPermission::NoAccess.bits(), 0b01);
    assert_eq!(PkPermission::NoAccessBis.bits(), 0b11);
    for v in 0..4u8 {
        assert_eq!(PkPermission::from_repr(v).unwrap().bits(), v);
    }
    assert_eq!(PkPermission::from_repr(4), None);
    assert_eq!(PkPermission::NoAccess.as_str(), "NoAccess");
    assert_eq!(PkPermission::ReadOnly.as_str(), "ReadOnly");
}

#[test]
fn key_fields() {
    // key 3 is bits 7:6
    let reg = 0b01 << 6;
    assert_eq!(read_key(reg, 3), PkPermission::NoAccess);
    assert_eq!(read_key(reg, 2), PkPermission::ReadWrite);
    assert_eq!(read_key(0x5555_5554, 0), PkPermission::ReadWrite);
    assert_eq!(read_key(0xC000_0000, 15), PkPermission::NoAccessBis);
}

#[test]
fn write_then_read_a_key() {
    let reg = 0x5555_5554;
    let written = write_key(reg, 8, PkPermission::ReadOnly);
    assert_eq!(read_key(written, 8), PkPermission::ReadOnly);
    for k in 0..16 {
        if k != 8 {
            assert_eq!(read_key(written, k), read_key(reg, k));
        }
    }
    assert_eq!(written, (reg & !(3 << 16)) | (2 << 16));
    // writing back what is there changes nothing
    assert_eq!(write_key(reg, 5, read_key(reg, 5)), reg);
}

#[test]
fn pkrs_keys() {
    assert_eq!(IA32_PKRS, 0x6E1);
    let v = write_pkrs_key(0, 15, PkPermission::NoAccessBis);
    assert_eq!(v, 0xC000_0000);
    assert_eq!(read_pkrs_key(v, 15), PkPermission::NoAccessBis);
    assert_eq!(read_pkrs_key(v, 14), PkPermission::ReadWrite);
}

#[test]
fn boot_pkru_keys() {
    let v = boot_pkru::write_pkru_key(0, 3, PkPermission::NoAccess);
    assert_eq!(v, 0x40);
    assert_eq!(boot_pkru::read_pkru_key(v, 3), PkPermission::NoAccess);
    assert!(boot_pkru::has_pku(0x8));
    assert!(!boot_pkru::has_pku(0x7));
}

#[test]
fn cpuid_pku_bit() {
    assert!(has_pku(1 << 3));
    assert!(has_pku(0xFFFF_FFFF));
    assert!(!has_pku(0xFFFF_FFF7));
}

#[test]
fn entry_protection_keys() {
    let mut e = PageEntry::new(0x8000_0000_0012_3067);
    assert_eq!(get_frame_protection_key(&e), 0);
    set_frame_protection_key(&mut e, 6);
    assert_eq!(e.bits(), 0x8000_0000_0012_3067 | (6u64 << 59));
    assert_eq!(get_frame_protection_key(&e), 6);
    set_frame_protection_key(&mut e, 15);
    assert_eq!(get_frame_protection_key(&e), 15);
    set_frame_protection_key(&mut e, 0);
    assert_eq!(e.bits(), 0x8000_0000_0012_3067);
    // the three-bit reading used at boot ignores bit 62
    let e = PageEntry::new(0x7800_0000_0000_0001);
    assert_eq!(boot_pkru::get_frame_protection_key(&e), 7);
    assert_eq!(get_frame_protection_key(&e), 15);
}
