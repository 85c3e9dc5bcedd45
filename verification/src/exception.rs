//! Synchronous exceptions taken from user space: which system call was made
//! and what the kernel does about it.
use vstd::prelude::*;
use vstd::utf8::valid_utf8;

verus! {

/// The registers that the low-level handler saves before it calls into Rust,
/// in the order it stores them.
#[derive(Copy, Clone, Debug)]
pub struct SavedRegisters {
    pub x0: u64,
    pub x1: u64,
    pub x2: u64,
    pub x3: u64,
    pub x4: u64,
    pub x5: u64,
    pub x6: u64,
    pub x7: u64,
    pub x8: u64,
    pub x9: u64,
    pub x10: u64,
    pub x11: u64,
    pub x12: u64,
    pub x13: u64,
    pub x14: u64,
    pub x15: u64,
    pub x16: u64,
    pub x17: u64,
    pub x18: u64,
    pub fp: u64,
    pub lr: u64,
    pub xzr: u64,
    pub esr: u64,
    pub far: u64,
}

/// Exception class of an SVC instruction executed in AArch64 state.
pub const SVC_EXCEPTION_CLASS: u64 = 0b010101;
/// Longest text that the print call copies out of user space.
pub const MAX_PRINT_LEN: u64 = 4096;

/// What the kernel does about a synchronous exception from user space.
#[derive(Clone, Copy, Debug, PartialEq, Eq, Structural)]
pub enum SyscallAction {
    /// The exception is not a system call: halt.
    NotSyscall,
    /// `svc 0`: the process exits; halt.
    Exit,
    /// `svc 1` with more than 4096 bytes: refuse and return.
    PrintTooLong,
    /// `svc 1`: print the `count` bytes at `start` (up to `end`), if those
    /// user-space pointers are valid and the bytes are UTF-8; then return.
    Print { start: u64, end: u64, count: u64 },
    /// `svc 2`: nothing to do; return.
    Nop,
    /// Any other system call number: halt.
    Unsupported,
}

/// The action for an exception of class `exception_class` with syscall
/// number (ISS) `syscall_num`, taken with the saved registers `regs`: the
/// print call takes the text's address in x0 and its length in x1.
pub open spec fn syscall_action(exception_class: u64, syscall_num: u64, regs: SavedRegisters) -> SyscallAction {
    if exception_class != SVC_EXCEPTION_CLASS {
        SyscallAction::NotSyscall
    } else if syscall_num == 0 {
        SyscallAction::Exit
    } else if syscall_num == 1 {
        if regs.x1 > MAX_PRINT_LEN {
            SyscallAction::PrintTooLong
        } else {
            SyscallAction::Print { start: regs.x0, end: (regs.x0 + regs.x1) as u64, count: regs.x1 }
        }
    } else if syscall_num == 2 {
        SyscallAction::Nop
    } else {
        SyscallAction::Unsupported
    }
}

/// How a system call is decided by its number: any exception other than an
/// SVC is not a system call; `svc 0` exits, `svc 1` prints (or refuses a text
/// longer than 4096 bytes), `svc 2` does nothing, and every other number is
/// unsupported.  The kernel goes on running the process exactly for `svc 1`
/// and `svc 2`.
pub proof fn lemma_syscall_numbers(exception_class: u64, syscall_num: u64, regs: SavedRegisters)
    ensures
        ({
            let a = syscall_action(exception_class, syscall_num, regs);
            let svc = exception_class == SVC_EXCEPTION_CLASS;
            &&& !svc ==> a == SyscallAction::NotSyscall
            &&& svc && syscall_num == 0 ==> a == SyscallAction::Exit
            &&& svc && syscall_num == 1 && regs.x1 > 4096 ==> a == SyscallAction::PrintTooLong
            &&& svc && syscall_num == 1 && regs.x1 <= 4096 ==> (a matches SyscallAction::Print { start, end, count }
                && start == regs.x0 && count == regs.x1 && end == regs.x0 + regs.x1
                    - (if regs.x0 + regs.x1 > u64::MAX { 0x1_0000_0000_0000_0000int } else { 0int }))
            &&& svc && syscall_num == 2 ==> a == SyscallAction::Nop
            &&& svc && syscall_num > 2 ==> a == SyscallAction::Unsupported
            &&& (a == SyscallAction::NotSyscall || a == SyscallAction::Exit || a == SyscallAction::Unsupported)
                <==> (!svc || syscall_num == 0 || syscall_num > 2)
        }),
{
    let x0 = regs.x0;
    let x1 = regs.x1;
    assert((x0 + x1) as u64 == x0 + x1 - (if x0 + x1 > u64::MAX { 0x1_0000_0000_0000_0000int } else { 0int }))
        by (bit_vector);
}

/// Decides what to do about a synchronous exception from user space.  The
/// end address of a print must not overflow.
pub fn decide_syscall(exception_class: u64, syscall_num: u64, regs: &SavedRegisters) -> (r: SyscallAction)
    requires
        exception_class == SVC_EXCEPTION_CLASS && syscall_num == 1 && regs.x1 <= MAX_PRINT_LEN
            ==> regs.x0 + regs.x1 <= u64::MAX,
    ensures
        r == syscall_action(exception_class, syscall_num, *regs),
{
    if exception_class != SVC_EXCEPTION_CLASS {
        return SyscallAction::NotSyscall;
    }
    match syscall_num {
        0 => SyscallAction::Exit,
        1 => {
            let count = regs.x1;
            if count > MAX_PRINT_LEN {
                SyscallAction::PrintTooLong
            } else {
                SyscallAction::Print { start: regs.x0, end: regs.x0 + count, count }
            }
        },
        2 => SyscallAction::Nop,
        _ => SyscallAction::Unsupported,
    }
}

/// `heapless::String::<4096>::from_utf8` on the bytes, copied into a
/// `heapless::Vec<u8, 4096>` first (which cannot fail at this length):
/// whether it accepts them.  It does exactly when core's `str::from_utf8`
/// does, that is when the bytes are well-formed UTF-8: each scalar in its
/// shortest form, none a surrogate, none above U+10FFFF.
#[verifier::external_body]
fn utf8_ok(bytes: &[u8]) -> (r: bool)
    requires
        bytes@.len() <= 4096,
    ensures
        r == valid_utf8(bytes@),
{
    match heapless::Vec::<u8, 4096>::from_slice(bytes) {
        Ok(v) => heapless::String::<4096>::from_utf8(v).is_ok(),
        Err(_) => false,
    }
}

/// What becomes of a print call once its pointers have been checked.
#[derive(Clone, Copy, Debug, PartialEq, Eq, Structural)]
pub enum PrintOutcome {
    /// A user-space pointer is invalid: refuse.
    BadPointers,
    /// The bytes are not UTF-8: refuse.
    BadUtf8,
    /// Print the bytes as text.
    Text,
}

/// Decides a print call: refused when the start or end pointer is invalid
/// (the bytes are then not looked at, and the caller passes none), refused
/// when the bytes copied from user space are not UTF-8, printed otherwise.
pub fn print_outcome(start_ok: bool, end_ok: bool, bytes: &[u8]) -> (r: PrintOutcome)
    requires
        bytes@.len() <= MAX_PRINT_LEN,
    ensures
        r == (if !start_ok || !end_ok {
            PrintOutcome::BadPointers
        } else if valid_utf8(bytes@) {
            PrintOutcome::Text
        } else {
            PrintOutcome::BadUtf8
        }),
{
    if !start_ok || !end_ok {
        return PrintOutcome::BadPointers;
    }
    if utf8_ok(bytes) {
        PrintOutcome::Text
    } else {
        PrintOutcome::BadUtf8
    }
}

impl SyscallAction {
    /// Whether the kernel halts after this action instead of returning to
    /// user space.
    pub fn halts(&self) -> (r: bool)
        ensures
            r == (*self == SyscallAction::NotSyscall || *self == SyscallAction::Exit
                || *self == SyscallAction::Unsupported),
    {
        match self {
            SyscallAction::NotSyscall | SyscallAction::Exit | SyscallAction::Unsupported => true,
            _ => false,
        }
    }
}

} // verus!
