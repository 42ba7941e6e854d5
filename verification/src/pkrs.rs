//! Supervisor protection keys: the IA32_PKRS register.

use vstd::prelude::*;
use crate::pk::{PkPermission, key_field, with_key_field, read_key, write_key};

verus! {

/// MSR number of IA32_PKRS.
pub const IA32_PKRS: u32 = 0x6E1;

/// The permission of supervisor key `pkey` in the PKRS value `pkrs`.
pub fn read_pkrs_key(pkrs: u32, pkey: u8) -> (r: PkPermission)
    requires
        pkey < 16,
    ensures
        r.spec_bits() == key_field(pkrs, pkey as u32),
{
    read_key(pkrs, pkey as u32)
}

/// The PKRS value `pkrs` with supervisor key `pkey` set to `new_permission`.
pub fn write_pkrs_key(pkrs: u32, pkey: u8, new_permission: PkPermission) -> (r: u32)
    requires
        pkey < 16,
    ensures
        r == with_key_field(pkrs, pkey as u32, new_permission.spec_bits() as u32),
{
    write_key(pkrs, pkey as u32, new_permission)
}

} // verus!
