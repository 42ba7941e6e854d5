//! The system-call interface between user mode and the kernel: which
//! registers carry which arguments, and how the kernel decodes them.
//!
//! User code issues `int 0x80` with the call number in `rax` and arguments
//! in `rdi`, `rsi`, `rdx`, `r8` and `r9`; results come back in `rax`.

use vstd::prelude::*;
use crate::paging::{flags_from_bits, PAGE_FLAGS_ALL};
use crate::pk::{PkPermission, key_field, with_key_field, read_key, write_key};

verus! {

/// The general-purpose registers as saved on system-call entry.
#[derive(Clone, Copy, Debug, PartialEq, Eq, Structural)]
pub struct SyscallRegs {
    pub rax: u64,
    pub rbx: u64,
    pub rcx: u64,
    pub rdx: u64,
    pub rsi: u64,
    pub rdi: u64,
    pub rbp: u64,
    pub r8: u64,
    pub r9: u64,
    pub r10: u64,
    pub r11: u64,
    pub r12: u64,
    pub r13: u64,
    pub r14: u64,
    pub r15: u64,
}

pub const SYS_EXIT: u64 = 0;
pub const SYS_PRINT: u64 = 10;
pub const SYS_LOG: u64 = 11;
pub const SYS_READ_CR3: u64 = 20;
pub const SYS_UPDATE_CR3: u64 = 21;
pub const SYS_READ_PKRU_KEY: u64 = 22;
pub const SYS_WRITE_PKRU_KEY: u64 = 23;
pub const SYS_PKEY_MPROTECT: u64 = 24;
pub const SYS_ALLOCATE: u64 = 30;
pub const SYS_TRANSLATE_ADDR: u64 = 40;
pub const SYS_ADD_PAGE_TABLE_ENTRY: u64 = 41;
pub const SYS_ADD_FLAGS_TO_FRAME: u64 = 42;

/// A decoded system call.
#[derive(Clone, Copy, Debug, PartialEq, Eq, Structural)]
pub enum Syscall {
    /// Leave QEMU with an exit code.
    Exit { code: u64 },
    /// Print `len` UTF-8 bytes at `ptr`.
    Print { ptr: u64, len: u64 },
    /// Log `len` bytes at `ptr` with a level and a target string.
    Log { level: u64, target_ptr: u64, target_len: u64, ptr: u64, len: u64 },
    /// Return the physical address of the active level-4 table.
    ReadCr3,
    /// Switch to the prepared level-4 table and flush the TLB.
    UpdateCr3,
    ReadPkruKey { pkey: u8 },
    WritePkruKey { pkey: u8, permission: u8 },
    /// Tag `len` bytes from `addr` with protection key `pkey`.
    PkeyMprotect { addr: u64, len: u64, pkey: u8 },
    /// Allocate `size` zeroed bytes (`address` is `None`) or map the
    /// physical range at `address`.
    Allocate { address: Option<u64>, size: u64 },
    TranslateAddr { addr: u64 },
    AddPageTableEntry { addr: u64 },
    /// Add flags to the frames mapping `addr`; `flags` is `None` when the
    /// requested bits do not all name page-table flags.
    AddFlagsToFrame { addr: u64, flags: Option<u64>, recursive: bool },
    Unknown { id: u64 },
}

/// How the kernel reads a system call out of the saved registers.
pub open spec fn decode_spec(regs: SyscallRegs) -> Syscall {
    let id = regs.rax;
    if id == SYS_EXIT {
        Syscall::Exit { code: regs.rdi }
    } else if id == SYS_PRINT {
        Syscall::Print { ptr: regs.rdi, len: regs.rsi }
    } else if id == SYS_LOG {
        Syscall::Log { level: regs.rdx, target_ptr: regs.r8, target_len: regs.r9, ptr: regs.rdi, len: regs.rsi }
    } else if id == SYS_READ_CR3 {
        Syscall::ReadCr3
    } else if id == SYS_UPDATE_CR3 {
        Syscall::UpdateCr3
    } else if id == SYS_READ_PKRU_KEY {
        Syscall::ReadPkruKey { pkey: regs.rdx as u8 }
    } else if id == SYS_WRITE_PKRU_KEY {
        Syscall::WritePkruKey { pkey: regs.rdx as u8, permission: regs.rdi as u8 }
    } else if id == SYS_PKEY_MPROTECT {
        Syscall::PkeyMprotect { addr: regs.rdi, len: regs.rsi, pkey: regs.rdx as u8 }
    } else if id == SYS_ALLOCATE {
        Syscall::Allocate { address: if regs.rdi == 0 { None } else { Some(regs.rdi) }, size: regs.rsi }
    } else if id == SYS_TRANSLATE_ADDR {
        Syscall::TranslateAddr { addr: regs.rdi }
    } else if id == SYS_ADD_PAGE_TABLE_ENTRY {
        Syscall::AddPageTableEntry { addr: regs.rdi }
    } else if id == SYS_ADD_FLAGS_TO_FRAME {
        Syscall::AddFlagsToFrame {
            addr: regs.rdi,
            flags: if regs.rsi & !PAGE_FLAGS_ALL == 0 { Some(regs.rsi) } else { None },
            recursive: regs.r8 != 0,
        }
    } else {
        Syscall::Unknown { id }
    }
}

/// System call `id` takes an argument in `rdi`: every call with arguments
/// but the PKRU-key read. (`r8` and `r9` carry arguments only for logging,
/// and `r8` the recursion flag of adding flags.)
pub open spec fn reads_rdi(id: u64) -> bool {
    id != SYS_READ_CR3 && id != SYS_UPDATE_CR3 && id != SYS_READ_PKRU_KEY
}

/// System call `id` takes an argument in `rsi`.
pub open spec fn reads_rsi(id: u64) -> bool {
    id == SYS_PRINT || id == SYS_LOG || id == SYS_PKEY_MPROTECT || id == SYS_ALLOCATE || id == SYS_ADD_FLAGS_TO_FRAME
}

/// System call `id` takes an argument (a key or a log level) in `rdx`.
pub open spec fn reads_rdx(id: u64) -> bool {
    id == SYS_LOG || id == SYS_READ_PKRU_KEY || id == SYS_WRITE_PKRU_KEY || id == SYS_PKEY_MPROTECT
}

/// A system call is decoded from its number and its own argument registers
/// only: two register files that agree on `rax` and on the registers that
/// call reads decode to the same call, whatever the other registers hold.
pub proof fn lemma_decode_reads_only_call_registers(r1: SyscallRegs, r2: SyscallRegs)
    requires
        r1.rax == r2.rax,
        reads_rdi(r1.rax) ==> r1.rdi == r2.rdi,
        reads_rsi(r1.rax) ==> r1.rsi == r2.rsi,
        reads_rdx(r1.rax) ==> r1.rdx == r2.rdx,
        (r1.rax == SYS_LOG || r1.rax == SYS_ADD_FLAGS_TO_FRAME) ==> r1.r8 == r2.r8,
        r1.rax == SYS_LOG ==> r1.r9 == r2.r9,
    ensures
        decode_spec(r1) == decode_spec(r2),
{
}

/// `pkey_mprotect` tags `rsi` bytes from `rdi` with the key in the low byte
/// of `rdx`, for every register file.
pub proof fn lemma_decode_pkey_mprotect(regs: SyscallRegs)
    requires
        regs.rax == SYS_PKEY_MPROTECT,
    ensures
        decode_spec(regs) matches Syscall::PkeyMprotect { addr, len, pkey } && addr == regs.rdi && len
            == regs.rsi && pkey as u64 == regs.rdx % 256,
{
    let d = regs.rdx;
    assert((d as u8) as u64 == d % 256) by (bit_vector);
}

/// Decodes the system call described by the saved registers: the
/// dispatch table of `int 0x80`.
pub fn syscall_dispatch(regs: &SyscallRegs) -> (r: Syscall)
    ensures
        r == decode_spec(*regs),
{
    let id = regs.rax;
    if id == SYS_EXIT {
        Syscall::Exit { code: regs.rdi }
    } else if id == SYS_PRINT {
        Syscall::Print { ptr: regs.rdi, len: regs.rsi }
    } else if id == SYS_LOG {
        Syscall::Log { level: regs.rdx, target_ptr: regs.r8, target_len: regs.r9, ptr: regs.rdi, len: regs.rsi }
    } else if id == SYS_READ_CR3 {
        Syscall::ReadCr3
    } else if id == SYS_UPDATE_CR3 {
        Syscall::UpdateCr3
    } else if id == SYS_READ_PKRU_KEY {
        Syscall::ReadPkruKey { pkey: regs.rdx as u8 }
    } else if id == SYS_WRITE_PKRU_KEY {
        Syscall::WritePkruKey { pkey: regs.rdx as u8, permission: regs.rdi as u8 }
    } else if id == SYS_PKEY_MPROTECT {
        Syscall::PkeyMprotect { addr: regs.rdi, len: regs.rsi, pkey: regs.rdx as u8 }
    } else if id == SYS_ALLOCATE {
        let address = if regs.rdi == 0 { None } else { Some(regs.rdi) };
        Syscall::Allocate { address, size: regs.rsi }
    } else if id == SYS_TRANSLATE_ADDR {
        Syscall::TranslateAddr { addr: regs.rdi }
    } else if id == SYS_ADD_PAGE_TABLE_ENTRY {
        Syscall::AddPageTableEntry { addr: regs.rdi }
    } else if id == SYS_ADD_FLAGS_TO_FRAME {
        Syscall::AddFlagsToFrame { addr: regs.rdi, flags: flags_from_bits(regs.rsi), recursive: regs.r8 != 0 }
    } else {
        Syscall::Unknown { id }
    }
}

/// The registers with every argument register cleared.
pub open spec fn zero_regs() -> SyscallRegs {
    SyscallRegs {
        rax: 0,
        rbx: 0,
        rcx: 0,
        rdx: 0,
        rsi: 0,
        rdi: 0,
        rbp: 0,
        r8: 0,
        r9: 0,
        r10: 0,
        r11: 0,
        r12: 0,
        r13: 0,
        r14: 0,
        r15: 0,
    }
}

/// How user code loads a system call into registers (registers it does not
/// use are shown as zero).
pub open spec fn encode_spec(s: Syscall) -> SyscallRegs {
    let z = zero_regs();
    match s {
        Syscall::Exit { code } => SyscallRegs { rax: SYS_EXIT, rdi: code, ..z },
        Syscall::Print { ptr, len } => SyscallRegs { rax: SYS_PRINT, rdi: ptr, rsi: len, ..z },
        Syscall::Log { level, target_ptr, target_len, ptr, len } => SyscallRegs {
            rax: SYS_LOG,
            r8: target_ptr,
            r9: target_len,
            rdi: ptr,
            rsi: len,
            rdx: level,
            ..z
        },
        Syscall::ReadCr3 => SyscallRegs { rax: SYS_READ_CR3, ..z },
        Syscall::UpdateCr3 => SyscallRegs { rax: SYS_UPDATE_CR3, ..z },
        Syscall::ReadPkruKey { pkey } => SyscallRegs { rax: SYS_READ_PKRU_KEY, rdx: pkey as u64, ..z },
        Syscall::WritePkruKey { pkey, permission } => SyscallRegs {
            rax: SYS_WRITE_PKRU_KEY,
            rdx: pkey as u64,
            rdi: permission as u64,
            ..z
        },
        Syscall::PkeyMprotect { addr, len, pkey } => SyscallRegs {
            rax: SYS_PKEY_MPROTECT,
            rdi: addr,
            rsi: len,
            rdx: pkey as u64,
            ..z
        },
        Syscall::Allocate { address, size } => SyscallRegs {
            rax: SYS_ALLOCATE,
            rdi: match address {
                Some(a) => a,
                None => 0,
            },
            rsi: size,
            ..z
        },
        Syscall::TranslateAddr { addr } => SyscallRegs { rax: SYS_TRANSLATE_ADDR, rdi: addr, ..z },
        Syscall::AddPageTableEntry { addr } => SyscallRegs { rax: SYS_ADD_PAGE_TABLE_ENTRY, rdi: addr, ..z },
        Syscall::AddFlagsToFrame { addr, flags, recursive } => SyscallRegs {
            rax: SYS_ADD_FLAGS_TO_FRAME,
            rdi: addr,
            rsi: match flags {
                Some(f) => f,
                None => 0,
            },
            r8: if recursive { 1 } else { 0 },
            ..z
        },
        Syscall::Unknown { id } => SyscallRegs { rax: id, ..z },
    }
}

/// Loads a system call into registers the way the user-side wrappers do.
pub fn encode(s: &Syscall) -> (r: SyscallRegs)
    ensures
        r == encode_spec(*s),
{
    let z = SyscallRegs {
        rax: 0,
        rbx: 0,
        rcx: 0,
        rdx: 0,
        rsi: 0,
        rdi: 0,
        rbp: 0,
        r8: 0,
        r9: 0,
        r10: 0,
        r11: 0,
        r12: 0,
        r13: 0,
        r14: 0,
        r15: 0,
    };
    match *s {
        Syscall::Exit { code } => SyscallRegs { rax: SYS_EXIT, rdi: code, ..z },
        Syscall::Print { ptr, len } => SyscallRegs { rax: SYS_PRINT, rdi: ptr, rsi: len, ..z },
        Syscall::Log { level, target_ptr, target_len, ptr, len } => SyscallRegs {
            rax: SYS_LOG,
            r8: target_ptr,
            r9: target_len,
            rdi: ptr,
            rsi: len,
            rdx: level,
            ..z
        },
        Syscall::ReadCr3 => SyscallRegs { rax: SYS_READ_CR3, ..z },
        Syscall::UpdateCr3 => SyscallRegs { rax: SYS_UPDATE_CR3, ..z },
        Syscall::ReadPkruKey { pkey } => SyscallRegs { rax: SYS_READ_PKRU_KEY, rdx: pkey as u64, ..z },
        Syscall::WritePkruKey { pkey, permission } => SyscallRegs {
            rax: SYS_WRITE_PKRU_KEY,
            rdx: pkey as u64,
            rdi: permission as u64,
            ..z
        },
        Syscall::PkeyMprotect { addr, len, pkey } => SyscallRegs {
            rax: SYS_PKEY_MPROTECT,
            rdi: addr,
            rsi: len,
            rdx: pkey as u64,
            ..z
        },
        Syscall::Allocate { address, size } => {
            let rdi = match address {
                Some(a) => a,
                None => 0,
            };
            SyscallRegs { rax: SYS_ALLOCATE, rdi, rsi: size, ..z }
        },
        Syscall::TranslateAddr { addr } => SyscallRegs { rax: SYS_TRANSLATE_ADDR, rdi: addr, ..z },
        Syscall::AddPageTableEntry { addr } => SyscallRegs { rax: SYS_ADD_PAGE_TABLE_ENTRY, rdi: addr, ..z },
        Syscall::AddFlagsToFrame { addr, flags, recursive } => {
            let rsi = match flags {
                Some(f) => f,
                None => 0,
            };
            SyscallRegs { rax: SYS_ADD_FLAGS_TO_FRAME, rdi: addr, rsi, r8: if recursive { 1 } else { 0 }, ..z }
        },
        Syscall::Unknown { id } => SyscallRegs { rax: id, ..z },
    }
}

/// The requests that survive a round trip through the registers: an
/// allocation at physical address 0 reads as a heap allocation, page flags
/// must name flags, and an unknown call must not use a known number.
pub open spec fn round_trips(s: Syscall) -> bool {
    match s {
        Syscall::Allocate { address, .. } => address != Some(0u64),
        Syscall::AddFlagsToFrame { flags, .. } => flags matches Some(f) && f & !PAGE_FLAGS_ALL == 0,
        Syscall::Unknown { id } => !(id == SYS_EXIT || id == SYS_PRINT || id == SYS_LOG || id == SYS_READ_CR3
            || id == SYS_UPDATE_CR3 || id == SYS_READ_PKRU_KEY || id == SYS_WRITE_PKRU_KEY || id
            == SYS_PKEY_MPROTECT || id == SYS_ALLOCATE || id == SYS_TRANSLATE_ADDR || id
            == SYS_ADD_PAGE_TABLE_ENTRY || id == SYS_ADD_FLAGS_TO_FRAME),
        _ => true,
    }
}

/// The kernel decodes exactly the request that user code encoded.
pub proof fn lemma_decode_encode(s: Syscall)
    requires
        round_trips(s),
    ensures
        decode_spec(encode_spec(s)) == s,
{
    match s {
        Syscall::ReadPkruKey { pkey } => {
            assert((pkey as u64) as u8 == pkey);
        },
        Syscall::WritePkruKey { pkey, permission } => {
            assert((pkey as u64) as u8 == pkey);
            assert((permission as u64) as u8 == permission);
        },
        Syscall::PkeyMprotect { pkey, .. } => {
            assert((pkey as u64) as u8 == pkey);
        },
        _ => {},
    }
}

/// Whether a call is traced on entry: every call but printing and logging.
pub fn should_trace(id: u64) -> (r: bool)
    ensures
        r == (id != SYS_LOG && id != SYS_PRINT),
{
    id != SYS_LOG && id != SYS_PRINT
}

/// Exit codes understood by QEMU's isa-debug-exit device.
#[derive(Clone, Copy, Debug, PartialEq, Eq, Structural)]
pub enum QemuExitCode {
    Success,
    Failed,
}

impl QemuExitCode {
    pub open spec fn spec_code(self) -> u64 {
        match self {
            QemuExitCode::Success => 0x10,
            QemuExitCode::Failed => 0x11,
        }
    }

    /// The value written to the exit port.
    pub fn code(&self) -> (r: u64)
        ensures
            r == self.spec_code(),
    {
        match self {
            QemuExitCode::Success => 0x10,
            QemuExitCode::Failed => 0x11,
        }
    }

    /// The exit code with value `v`, if there is one.
    pub fn from_repr(v: u64) -> (r: Option<QemuExitCode>)
        ensures
            r matches Some(c) ==> c.spec_code() == v,
            r is None <==> (v != 0x10 && v != 0x11),
    {
        if v == 0x10 {
            Some(QemuExitCode::Success)
        } else if v == 0x11 {
            Some(QemuExitCode::Failed)
        } else {
            None
        }
    }
}

/// The `exit` call: the exit code requested in `rdi`.
pub fn exit(regs: &SyscallRegs) -> (r: QemuExitCode)
    requires
        regs.rdi == 0x10 || regs.rdi == 0x11,
    ensures
        r.spec_code() == regs.rdi,
{
    QemuExitCode::from_repr(regs.rdi).unwrap()
}

/// Log levels of the `log` call, by number.
#[derive(Clone, Copy, Debug, PartialEq, Eq, Structural)]
pub enum LogLevel {
    Error,
    Warn,
    Info,
    Debug,
    Trace,
}

/// The level of a `log` call; unknown levels are ignored (`None`).
pub fn log_level(level: u64) -> (r: Option<LogLevel>)
    ensures
        r == (if level == 0 {
            Some(LogLevel::Error)
        } else if level == 1 {
            Some(LogLevel::Warn)
        } else if level == 2 {
            Some(LogLevel::Info)
        } else if level == 3 {
            Some(LogLevel::Debug)
        } else if level == 4 {
            Some(LogLevel::Trace)
        } else {
            None
        }),
{
    if level == 0 {
        Some(LogLevel::Error)
    } else if level == 1 {
        Some(LogLevel::Warn)
    } else if level == 2 {
        Some(LogLevel::Info)
    } else if level == 3 {
        Some(LogLevel::Debug)
    } else if level == 4 {
        Some(LogLevel::Trace)
    } else {
        None
    }
}

/// The `read_pkru_key` call: the permission of key `rdx` in `pkru`.
pub fn read_pkru_key(regs: &SyscallRegs, pkru: u32) -> (r: PkPermission)
    requires
        (regs.rdx as u8) < 16,
    ensures
        r.spec_bits() == key_field(pkru, (regs.rdx as u8) as u32),
{
    let pkey = regs.rdx as u8;
    read_key(pkru, pkey as u32)
}

/// The `write_pkru_key` call: `pkru` with key `rdx` set to the permission
/// encoded in `rdi`.
pub fn write_pkru_key(regs: &SyscallRegs, pkru: u32) -> (r: u32)
    requires
        (regs.rdx as u8) < 16,
        (regs.rdi as u8) < 4,
    ensures
        r == with_key_field(pkru, (regs.rdx as u8) as u32, (regs.rdi as u8) as u32),
{
    let pkey = regs.rdx as u8;
    let new_permission = PkPermission::from_repr(regs.rdi as u8).unwrap();
    write_key(pkru, pkey as u32, new_permission)
}

/// The `translate_addr` reply: the physical address, or 0 when unmapped.
pub fn translation_reply(phys: Option<u64>) -> (r: u64)
    ensures
        r == (match phys {
            Some(p) => p,
            None => 0,
        }),
{
    match phys {
        Some(p) => p,
        None => 0,
    }
}

/// How user code reads a `translate_addr` reply: 0 means unmapped.
pub fn translation_result(ret: u64) -> (r: Option<u64>)
    ensures
        r == (if ret == 0 { None } else { Some(ret) }),
{
    if ret == 0 {
        None
    } else {
        Some(ret)
    }
}

/// A translation survives the reply unless it maps to physical address 0.
pub proof fn lemma_translation_round_trip(phys: Option<u64>)
    requires
        phys != Some(0u64),
    ensures
        (if (match phys {
            Some(p) => p,
            None => 0u64,
        }) == 0 {
            None
        } else {
            Some(
                match phys {
                    Some(p) => p,
                    None => 0u64,
                },
            )
        }) == phys,
{
}

} // verus!
