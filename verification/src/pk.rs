//! Memory protection keys: the 2-bit per-key permission fields of the PKRU
//! and PKRS registers, and the 4-bit key stored in bits 62:59 of a page-table
//! entry.

use vstd::prelude::*;
use crate::paging::{PageEntry, flags_from_bits_truncate, PAGE_FLAGS_ALL};

verus! {

/// Access rights of one protection key: bit 0 disables all data access
/// (AD), bit 1 disables writes (WD).
#[derive(Clone, Copy, Debug, PartialEq, Eq, Structural)]
pub enum PkPermission {
    ReadWrite,
    ReadOnly,
    NoAccess,
    NoAccessBis,
}

/// Mask of one key's field in PKRU / PKRS.
pub const PK_MASK: u32 = 3;

/// Number of protection keys.
pub const PKEY_COUNT: u8 = 16;

/// First bit of the protection key in a page-table entry.
pub const PKEY_SHIFT: u64 = 59;

/// Mask of the protection key once shifted down (bits 62:59 hold it).
pub const PAGE_TABLE_ENTRY_PROTECTION_KEY_MASK: u64 = 0xF;

/// The protection-key bits of a page-table entry.
pub const PKEY_MASK: u64 = 0x7800_0000_0000_0000;

impl PkPermission {
    /// The register encoding of a permission.
    pub open spec fn spec_bits(self) -> u8 {
        match self {
            PkPermission::ReadWrite => 0,
            PkPermission::ReadOnly => 2,
            PkPermission::NoAccess => 1,
            PkPermission::NoAccessBis => 3,
        }
    }

    /// The register encoding of a permission.
    pub fn bits(&self) -> (r: u8)
        ensures
            r == self.spec_bits(),
            r < 4,
    {
        match self {
            PkPermission::ReadWrite => 0,
            PkPermission::ReadOnly => 2,
            PkPermission::NoAccess => 1,
            PkPermission::NoAccessBis => 3,
        }
    }

    /// The permission a 2-bit field encodes, if `v` is one.
    pub open spec fn spec_from_repr(v: u8) -> Option<PkPermission> {
        if v == 0 {
            Some(PkPermission::ReadWrite)
        } else if v == 2 {
            Some(PkPermission::ReadOnly)
        } else if v == 1 {
            Some(PkPermission::NoAccess)
        } else if v == 3 {
            Some(PkPermission::NoAccessBis)
        } else {
            None
        }
    }

    /// The permission a 2-bit field encodes, if `v` is one.
    pub fn from_repr(v: u8) -> (r: Option<PkPermission>)
        ensures
            r == Self::spec_from_repr(v),
            r is Some <==> v < 4,
            r matches Some(p) ==> p.spec_bits() == v,
    {
        if v == 0 {
            Some(PkPermission::ReadWrite)
        } else if v == 2 {
            Some(PkPermission::ReadOnly)
        } else if v == 1 {
            Some(PkPermission::NoAccess)
        } else if v == 3 {
            Some(PkPermission::NoAccessBis)
        } else {
            None
        }
    }

    /// The variant's name.
    pub fn as_str(&self) -> (r: &'static str)
        ensures
            r@ == (match self {
                PkPermission::ReadWrite => "ReadWrite"@,
                PkPermission::ReadOnly => "ReadOnly"@,
                PkPermission::NoAccess => "NoAccess"@,
                PkPermission::NoAccessBis => "NoAccessBis"@,
            }),
    {
        match self {
            PkPermission::ReadWrite => "ReadWrite",
            PkPermission::ReadOnly => "ReadOnly",
            PkPermission::NoAccess => "NoAccess",
            PkPermission::NoAccessBis => "NoAccessBis",
        }
    }
}

/// The 2-bit field of key `key` in a PKRU / PKRS value.
pub open spec fn key_field(reg: u32, key: u32) -> u32 {
    (reg >> (2 * key) as u32) & PK_MASK
}

/// `reg` with the field of key `key` replaced by `bits`.
pub open spec fn with_key_field(reg: u32, key: u32, bits: u32) -> u32 {
    (reg & !(PK_MASK << (2 * key) as u32)) | (bits << (2 * key) as u32)
}

/// The permission of key `pkey` in the register value `reg`.
pub fn read_key(reg: u32, pkey: u32) -> (r: PkPermission)
    requires
        pkey < 16,
    ensures
        r.spec_bits() == key_field(reg, pkey),
        PkPermission::spec_from_repr(key_field(reg, pkey) as u8) == Some(r),
{
    let shift: u32 = pkey * 2;
    let field = (reg >> shift) & PK_MASK;
    assert(field < 4) by (bit_vector)
        requires
            field == (reg >> shift) & 3u32,
    ;
    PkPermission::from_repr(field as u8).unwrap()
}

/// `reg` with the permission of key `pkey` set to `permission`.
pub fn write_key(reg: u32, pkey: u32, permission: PkPermission) -> (r: u32)
    requires
        pkey < 16,
    ensures
        r == with_key_field(reg, pkey, permission.spec_bits() as u32),
{
    let shift: u32 = pkey * 2;
    let mask: u32 = PK_MASK << shift;
    let mut v = reg;
    v = v & !mask;
    v = v | (permission.bits() as u32) << shift;
    v
}

/// Writing a key's permission and reading it back gives the permission
/// written; every other key keeps its permission.
pub proof fn lemma_key_write_read(reg: u32, key: u32, bits: u32, other: u32)
    requires
        key < 16,
        other < 16,
        bits < 4,
    ensures
        key_field(with_key_field(reg, key, bits), key) == bits,
        other != key ==> key_field(with_key_field(reg, key, bits), other) == key_field(reg, other),
{
    let s = (2 * key) as u32;
    let t = (2 * other) as u32;
    assert(((((reg & !(3u32 << s)) | (bits << s)) >> s) & 3u32) == bits) by (bit_vector)
        requires
            s < 32,
            s % 2 == 0,
            bits < 4,
    ;
    assert(s != t ==> ((((reg & !(3u32 << s)) | (bits << s)) >> t) & 3u32) == ((reg >> t) & 3u32)) by (bit_vector)
        requires
            s < 32,
            t < 32,
            s % 2 == 0,
            t % 2 == 0,
            bits < 4,
    ;
}

/// Writing back the permission a key already has leaves the register unchanged.
pub proof fn lemma_key_write_same(reg: u32, key: u32)
    requires
        key < 16,
    ensures
        with_key_field(reg, key, key_field(reg, key)) == reg,
{
    let s = (2 * key) as u32;
    assert(((reg & !(3u32 << s)) | (((reg >> s) & 3u32) << s)) == reg) by (bit_vector)
        requires
            s < 32,
    ;
}

/// Decoding a permission's encoding gives the permission back.
pub proof fn lemma_permission_roundtrip(p: PkPermission)
    ensures
        PkPermission::spec_from_repr(p.spec_bits()) == Some(p),
{
}

/// Whether CPUID leaf 7 (sub-leaf 0) reports protection keys for user
/// pages, given the ECX register it returned.
pub fn has_pku(ecx: u32) -> (r: bool)
    ensures
        r == (ecx & 8 != 0),
{
    (ecx & 0x8) != 0
}

/// The protection key of a page-table entry: bits 62:59 of its flags.
pub open spec fn entry_pkey(bits: u64) -> u64 {
    (bits >> PKEY_SHIFT) & PAGE_TABLE_ENTRY_PROTECTION_KEY_MASK
}

/// The protection key stored in a page-table entry.
pub fn get_frame_protection_key(entry: &PageEntry) -> (r: u8)
    ensures
        r == entry_pkey(entry@),
        r < 16,
{
    let flags = entry.flags();
    let key = (flags >> PKEY_SHIFT) & PAGE_TABLE_ENTRY_PROTECTION_KEY_MASK;
    let e = entry.bits();
    assert(key == (e >> 59u64) & 0xFu64 && key < 16) by (bit_vector)
        requires
            flags == e & 0xFFF0_0000_0000_0FFFu64,
            key == (flags >> 59u64) & 0xFu64,
    ;
    key as u8
}

/// Sets the protection key of a page-table entry to `pkey`; the address
/// and every other flag are kept.
pub fn set_frame_protection_key(entry: &mut PageEntry, pkey: u8)
    requires
        pkey < 16,
    ensures
        final(entry)@ == (old(entry)@ & !PKEY_MASK) | ((pkey as u64) << PKEY_SHIFT),
        entry_pkey(final(entry)@) == pkey,
        final(entry)@ & !PKEY_MASK == old(entry)@ & !PKEY_MASK,
{
    let mut flags = entry.flags();
    flags = flags & !PKEY_MASK;
    flags = flags | (pkey as u64) << PKEY_SHIFT;
    let e = entry.bits();
    let k = pkey as u64;
    let kept = flags_from_bits_truncate(flags);
    assert(kept & !0xFFF0_0000_0000_0FFFu64 == 0) by (bit_vector)
        requires
            kept == flags & 0xFFF0_0000_0000_0FFFu64,
    ;
    assert(flags == ((e & 0xFFF0_0000_0000_0FFFu64) & !0x7800_0000_0000_0000u64) | (k << 59u64));
    entry.set_flags(kept);
    let fin = entry.bits();
    assert(fin == (e & !0x7800_0000_0000_0000u64) | (k << 59u64) && ((fin >> 59u64) & 0xFu64) == k && fin
        & !0x7800_0000_0000_0000u64 == e & !0x7800_0000_0000_0000u64) by (bit_vector)
        requires
            fin == (e & 0x000F_FFFF_FFFF_F000u64) | kept,
            kept == flags & 0xFFF0_0000_0000_0FFFu64,
            flags == ((e & 0xFFF0_0000_0000_0FFFu64) & !0x7800_0000_0000_0000u64) | (k << 59u64),
            k < 16,
    ;
}

/// Setting a key and reading it back gives the key that was set.
pub proof fn lemma_entry_key_set_get(bits: u64, pkey: u64)
    requires
        pkey < 16,
    ensures
        entry_pkey((bits & !PKEY_MASK) | (pkey << PKEY_SHIFT)) == pkey,
{
    assert((((bits & !0x7800_0000_0000_0000u64) | (pkey << 59u64)) >> 59u64) & 0xFu64 == pkey) by (bit_vector)
        requires
            pkey < 16,
    ;
}

} // verus!
