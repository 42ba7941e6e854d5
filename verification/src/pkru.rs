//! User protection keys as first brought up at boot: the PKRU register and
//! the three low bits of a page-table entry's key field.

use vstd::prelude::*;
use crate::paging::PageEntry;
use crate::pk::{PkPermission, key_field, with_key_field, read_key, write_key};

verus! {

/// Mask of one key's field in PKRU.
pub const PKRU_MASK: u32 = 3;

/// The permission of key `key` in the PKRU value `pkru`.
pub fn read_pkru_key(pkru: u32, key: u32) -> (r: PkPermission)
    requires
        key < 16,
    ensures
        r.spec_bits() == key_field(pkru, key),
{
    read_key(pkru, key)
}

/// The PKRU value `pkru` with key `key` set to `new_permission`.
pub fn write_pkru_key(pkru: u32, key: u32, new_permission: PkPermission) -> (r: u32)
    requires
        key < 16,
    ensures
        r == with_key_field(pkru, key, new_permission.spec_bits() as u32),
{
    write_key(pkru, key, new_permission)
}

/// Bits 61:59 of a page-table entry's flags.
pub fn get_frame_protection_key(entry: &PageEntry) -> (r: u32)
    ensures
        r == (entry@ >> 59u64) & 7,
{
    let flags = entry.flags();
    let e = entry.bits();
    let key = (flags >> 59) & 0x7;
    assert(key == (e >> 59u64) & 7 && key < 8) by (bit_vector)
        requires
            flags == e & 0xFFF0_0000_0000_0FFFu64,
            key == (flags >> 59u64) & 7,
    ;
    key as u32
}

/// Whether CPUID leaf 7 (sub-leaf 0) reports protection keys for user
/// pages, given the ECX register it returned.
pub fn has_pku(ecx: u32) -> (r: bool)
    ensures
        r == (ecx & 8 != 0),
{
    (ecx & 0x8) != 0
}

} // verus!
