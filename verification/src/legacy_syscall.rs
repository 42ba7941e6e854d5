//! The first system-call entry point, which knew a single call.

use vstd::prelude::*;
use crate::syscall::SyscallRegs;

verus! {

/// A call decoded by the first entry point.
#[derive(Clone, Copy, Debug, PartialEq, Eq, Structural)]
pub enum LegacySyscall {
    /// Number 1: print `len` UTF-8 bytes at `ptr`.
    Print { ptr: u64, len: u64 },
    Unknown { id: u64 },
}

/// Decodes a call for the first entry point.
pub fn syscall_dispatch(regs: &SyscallRegs) -> (r: LegacySyscall)
    ensures
        r == (if regs.rax == 1 {
            LegacySyscall::Print { ptr: regs.rdi, len: regs.rsi }
        } else {
            LegacySyscall::Unknown { id: regs.rax }
        }),
{
    if regs.rax == 1 {
        LegacySyscall::Print { ptr: regs.rdi, len: regs.rsi }
    } else {
        LegacySyscall::Unknown { id: regs.rax }
    }
}

} // verus!
