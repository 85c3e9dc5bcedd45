use rpi4_kernel::exception::{decide_syscall, print_outcome, PrintOutcome, SavedRegisters, SyscallAction};

fn regs(x0: u64, x1: u64) -> SavedRegisters {
    SavedRegisters {
        x0, x1, x2: 0, x3: 0, x4: 0, x5: 0, x6: 0, x7: 0, x8: 0, x9: 0, x10: 0, x11: 0, x12: 0,
        x13: 0, x14: 0, x15: 0, x16: 0, x17: 0, x18: 0, fp: 0, lr: 0, xzr: 0, esr: 0, far: 0,
    }
}

#[test]
fn syscall_decisions() {
    let r = regs(0x8_0100, 5);
    assert_eq!(decide_syscall(0b100100, 1, &r), SyscallAction::NotSyscall);
    assert_eq!(decide_syscall(0b010101, 0, &r), SyscallAction::Exit);
    assert_eq!(decide_syscall(0b010101, 1, &r), SyscallAction::Print { start: 0x8_0100, end: 0x8_0105, count: 5 });
    assert_eq!(decide_syscall(0b010101, 1, &regs(0x8_0000, 4096)), SyscallAction::Print { start: 0x8_0000, end: 0x8_1000, count: 4096 });
    assert_eq!(decide_syscall(0b010101, 1, &regs(0, 4097)), SyscallAction::PrintTooLong);
    assert_eq!(decide_syscall(0b010101, 2, &r), SyscallAction::Nop);
    assert_eq!(decide_syscall(0b010101, 3, &r), SyscallAction::Unsupported);
}

#[test]
fn which_actions_halt() {
    assert!(SyscallAction::NotSyscall.halts());
    assert!(SyscallAction::Exit.halts());
    assert!(SyscallAction::Unsupported.halts());
    assert!(!SyscallAction::Nop.halts());
    assert!(!SyscallAction::PrintTooLong.halts());
    assert!(!SyscallAction::Print { start: 0, end: 1, count: 1 }.halts());
}

#[test]
fn print_outcomes() {
    assert_eq!(print_outcome(true, true, b"hello"), PrintOutcome::Text);
    assert_eq!(print_outcome(true, true, "h\u{e9}".as_bytes()), PrintOutcome::Text);
    assert_eq!(print_outcome(true, true, b""), PrintOutcome::Text);
    assert_eq!(print_outcome(true, true, &[0xff, 0x41]), PrintOutcome::BadUtf8);
    assert_eq!(print_outcome(true, true, &[0xc3]), PrintOutcome::BadUtf8);
    // An overlong form, a surrogate and a scalar above U+10FFFF are refused;
    // a four-byte scalar is printed.
    assert_eq!(print_outcome(true, true, &[0xc0, 0x80]), PrintOutcome::BadUtf8);
    assert_eq!(print_outcome(true, true, &[0xed, 0xa0, 0x80]), PrintOutcome::BadUtf8);
    assert_eq!(print_outcome(true, true, &[0xf4, 0x90, 0x80, 0x80]), PrintOutcome::BadUtf8);
    assert_eq!(print_outcome(true, true, "\u{1f600}".as_bytes()), PrintOutcome::Text);
    assert_eq!(print_outcome(false, true, b"hello"), PrintOutcome::BadPointers);
    assert_eq!(print_outcome(true, false, &[0xff]), PrintOutcome::BadPointers);
    assert_eq!(print_outcome(true, true, &[b'a'; 4096]), PrintOutcome::Text);
}
