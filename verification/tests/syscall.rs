use kernel::legacy_syscall::{self, LegacySyscall};
use kernel::pk::PkPermission;
use kernel::syscall::{
    encode, exit, log_level, read_pkru_key, should_trace, syscall_dispatch, translation_reply,
    translation_result, write_pkru_key, LogLevel, QemuExitCode, Syscall, SyscallRegs, SYS_ALLOCATE,
    SYS_LOG, SYS_PRINT, SYS_READ_CR3, SYS_TRANSLATE_ADDR,
};

fn regs(rax: u64) -> SyscallRegs {
    SyscallRegs {
        rax,
        rbx: 0,
        rcx: 0,
        rdx: 0,
        rsi: 0,
        rdi: 0,
        rbp: 0,
        r8: 0,
        r9: 0,
        r10: 0,
        r11: 0,
        r12: 0,
        r13: 0,
        r14: 0,
        r15: 0,
    }
}

#[test]
fn dispatch_reads_the_argument_registers() {
    let mut r = regs(SYS_LOG);
    r.rdi = 0x1000;
    r.rsi = 5;
    r.rdx = 2;
    r.r8 = 0x2000;
    r.r9 = 6;
    assert_eq!(
        syscall_dispatch(&r),
        Syscall::Log { level: 2, target_ptr: 0x2000, target_len: 6, ptr: 0x1000, len: 5 }
    );
    assert_eq!(syscall_dispatch(&regs(SYS_READ_CR3)), Syscall::ReadCr3);
    assert_eq!(syscall_dispatch(&regs(99)), Syscall::Unknown { id: 99 });
}

#[test]
fn allocate_at_zero_is_a_heap_allocation() {
    let mut r = regs(SYS_ALLOCATE);
    r.rsi = 4096;
    assert_eq!(syscall_dispatch(&r), Syscall::Allocate { address: None, size: 4096 });
    r.rdi = 0xb000_0000;
    assert_eq!(syscall_dispatch(&r), Syscall::Allocate { address: Some(0xb000_0000), size: 4096 });
}

#[test]
fn add_flags_keeps_only_page_table_flags() {
    let mut r = regs(42);
    r.rdi = 0x4000;
    r.rsi = 0x3;
    r.r8 = 1;
    assert_eq!(
        syscall_dispatch(&r),
        Syscall::AddFlagsToFrame { addr: 0x4000, flags: Some(0x3), recursive: true }
    );
    r.rsi = 1 << 20;
    r.r8 = 0;
    assert_eq!(
        syscall_dispatch(&r),
        Syscall::AddFlagsToFrame { addr: 0x4000, flags: None, recursive: false }
    );
}

#[test]
fn decode_undoes_encode() {
    let calls = [
        Syscall::Exit { code: 0x10 },
        Syscall::Print { ptr: 0x1234, len: 7 },
        Syscall::Log { level: 3, target_ptr: 8, target_len: 9, ptr: 10, len: 11 },
        Syscall::UpdateCr3,
        Syscall::ReadPkruKey { pkey: 5 },
        Syscall::WritePkruKey { pkey: 6, permission: 2 },
        Syscall::PkeyMprotect { addr: 0x5000, len: 4096, pkey: 1 },
        Syscall::Allocate { address: Some(0x9000), size: 12 },
        Syscall::TranslateAddr { addr: 0xdead_b000 },
        Syscall::AddPageTableEntry { addr: 0x7000 },
        Syscall::AddFlagsToFrame { addr: 0x7000, flags: Some(0x7), recursive: false },
        Syscall::Unknown { id: 77 },
    ];
    for c in calls.iter() {
        assert_eq!(syscall_dispatch(&encode(c)), *c);
    }
}

#[test]
fn encode_places_print_arguments() {
    let r = encode(&Syscall::Print { ptr: 0xabc, len: 3 });
    assert_eq!(r.rax, SYS_PRINT);
    assert_eq!(r.rdi, 0xabc);
    assert_eq!(r.rsi, 3);
    assert_eq!(r.rdx, 0);
}

#[test]
fn printing_and_logging_are_not_traced() {
    assert!(!should_trace(SYS_PRINT));
    assert!(!should_trace(SYS_LOG));
    assert!(should_trace(SYS_ALLOCATE));
    assert!(should_trace(0));
}

#[test]
fn exit_codes() {
    let mut r = regs(0);
    r.rdi = 0x10;
    assert_eq!(exit(&r), QemuExitCode::Success);
    r.rdi = 0x11;
    assert_eq!(exit(&r), QemuExitCode::Failed);
    assert_eq!(QemuExitCode::Failed.code(), 0x11);
    assert_eq!(QemuExitCode::from_repr(0x12), None);
}

#[test]
fn log_levels() {
    assert_eq!(log_level(0), Some(LogLevel::Error));
    assert_eq!(log_level(2), Some(LogLevel::Info));
    assert_eq!(log_level(4), Some(LogLevel::Trace));
    assert_eq!(log_level(5), None);
}

#[test]
fn pkru_calls() {
    let mut r = regs(22);
    r.rdx = 1;
    assert_eq!(read_pkru_key(&r, 0b1000), PkPermission::ReadOnly);
    r.rdi = 1;
    assert_eq!(write_pkru_key(&r, 0), 0b0100);
    r.rdx = 15;
    r.rdi = 3;
    assert_eq!(write_pkru_key(&r, 0), 0xC000_0000);
}

#[test]
fn translation_replies() {
    assert_eq!(translation_reply(Some(0x1234)), 0x1234);
    assert_eq!(translation_reply(None), 0);
    assert_eq!(translation_result(0), None);
    assert_eq!(translation_result(0x1234), Some(0x1234));
    assert_eq!(translation_result(translation_reply(Some(0x8000))), Some(0x8000));
    // A mapping to physical address 0 is indistinguishable from no mapping.
    assert_eq!(translation_result(translation_reply(Some(0))), None);
    let _ = SYS_TRANSLATE_ADDR;
}

#[test]
fn legacy_entry_knows_only_print() {
    let mut r = regs(1);
    r.rdi = 0x100;
    r.rsi = 4;
    assert_eq!(legacy_syscall::syscall_dispatch(&r), LegacySyscall::Print { ptr: 0x100, len: 4 });
    assert_eq!(legacy_syscall::syscall_dispatch(&regs(10)), LegacySyscall::Unknown { id: 10 });
}
