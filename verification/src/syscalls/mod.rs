//! System calls: which call a trap asks for, and what each one computes.
use vstd::prelude::*;
use crate::interrupts::InteruptStack;
use arch_prctl::{MsrWrite, msr_write};

pub mod arch_prctl;
pub mod brk;
pub mod close;
pub mod getcwd;
pub mod ioctl;
pub mod mincore;
pub mod mmap;
pub mod mprotect;
pub mod open;
pub mod read;
pub mod write;
pub mod writev;

verus! {

/// A system call with its arguments, as read from the saved registers.
#[derive(Clone, Copy, Debug, PartialEq, Eq, Structural)]
pub enum Syscall {
    Read { fd: u64, buf: u64, count: u64 },
    Write { fd: u64, buf: u64, count: u64 },
    Open { pathname: u64, flags: u64, mode: u64 },
    Close { fd: u64 },
    Poll { fds: u64, nfds: u64, timeout: u64 },
    Mmap { addr: u64, length: u64, prot: u64, flags: u64, fd: u64, offset: u64 },
    Mprotect { addr: u64, len: u64, prot: u64 },
    Brk { addr: u64 },
    RtSigaction { sig: u64, act: u64, oact: u64, sigsetsize: u64 },
    Sigprocmask { how: u64, set: u64, oldset: u64 },
    Ioctl { fd: u64, request: u64, ptr: u64 },
    Writev { fd: u64, iov: u64, iovcnt: u64 },
    Mincore { addr: u64, length: u64, vec: u64 },
    Getpid,
    Uname { name: u64 },
    Getcwd { buf: u64, size: u64 },
    Getuid,
    Getgid,
    Setuid { uid: u64 },
    Setgid { gid: u64 },
    Getppid,
    ArchPrctl { code: u64, addr: u64 },
    Futex { addr: u64, op: u64 },
    SetTidAddress { tidptr: u64 },
    ExitGroup { code: u64 },
    Unknown { number: u64 },
}

/// The call that the registers `v` ask for: the number is in `rax`, the
/// arguments in `rdi`, `rsi`, `rdx`, `r10`, `r8`, `r9`.
pub open spec fn spec_decode(v: InteruptStack) -> Syscall {
    let n = v.rax;
    if n == 0 {
        Syscall::Read { fd: v.rdi, buf: v.rsi, count: v.rdx }
    } else if n == 1 {
        Syscall::Write { fd: v.rdi, buf: v.rsi, count: v.rdx }
    } else if n == 2 {
        Syscall::Open { pathname: v.rdi, flags: v.rsi, mode: v.rdx }
    } else if n == 3 {
        Syscall::Close { fd: v.rdi }
    } else if n == 7 {
        Syscall::Poll { fds: v.rdi, nfds: v.rsi, timeout: v.rdx }
    } else if n == 9 {
        Syscall::Mmap { addr: v.rdi, length: v.rsi, prot: v.rdx, flags: v.r10, fd: v.r8, offset: v.r9 }
    } else if n == 10 {
        Syscall::Mprotect { addr: v.rdi, len: v.rsi, prot: v.rdx }
    } else if n == 12 {
        Syscall::Brk { addr: v.rdi }
    } else if n == 13 {
        Syscall::RtSigaction { sig: v.rdi, act: v.rsi, oact: v.rdx, sigsetsize: v.r10 }
    } else if n == 14 {
        Syscall::Sigprocmask { how: v.rdi, set: v.rsi, oldset: v.rdx }
    } else if n == 16 {
        Syscall::Ioctl { fd: v.rdi, request: v.rsi, ptr: v.rdx }
    } else if n == 20 {
        Syscall::Writev { fd: v.rdi, iov: v.rsi, iovcnt: v.rdx }
    } else if n == 27 {
        Syscall::Mincore { addr: v.rdi, length: v.rsi, vec: v.rdx }
    } else if n == 39 {
        Syscall::Getpid
    } else if n == 63 {
        Syscall::Uname { name: v.rdi }
    } else if n == 79 {
        Syscall::Getcwd { buf: v.rdi, size: v.rsi }
    } else if n == 102 {
        Syscall::Getuid
    } else if n == 104 {
        Syscall::Getgid
    } else if n == 105 {
        Syscall::Setuid { uid: v.rdi }
    } else if n == 106 {
        Syscall::Setgid { gid: v.rdi }
    } else if n == 110 {
        Syscall::Getppid
    } else if n == 158 {
        Syscall::ArchPrctl { code: v.rdi, addr: v.rsi }
    } else if n == 202 {
        Syscall::Futex { addr: v.rdi, op: v.rsi }
    } else if n == 218 {
        Syscall::SetTidAddress { tidptr: v.rdi }
    } else if n == 231 {
        Syscall::ExitGroup { code: v.rdi }
    } else {
        Syscall::Unknown { number: n }
    }
}

/// Reads the call and its arguments from the saved registers.
pub fn decode(vars: &InteruptStack) -> (r: Syscall)
    ensures
        r == spec_decode(*vars),
{
    let n = vars.rax;
    if n == 0 {
        Syscall::Read { fd: vars.rdi, buf: vars.rsi, count: vars.rdx }
    } else if n == 1 {
        Syscall::Write { fd: vars.rdi, buf: vars.rsi, count: vars.rdx }
    } else if n == 2 {
        Syscall::Open { pathname: vars.rdi, flags: vars.rsi, mode: vars.rdx }
    } else if n == 3 {
        Syscall::Close { fd: vars.rdi }
    } else if n == 7 {
        Syscall::Poll { fds: vars.rdi, nfds: vars.rsi, timeout: vars.rdx }
    } else if n == 9 {
        Syscall::Mmap {
            addr: vars.rdi,
            length: vars.rsi,
            prot: vars.rdx,
            flags: vars.r10,
            fd: vars.r8,
            offset: vars.r9,
        }
    } else if n == 10 {
        Syscall::Mprotect { addr: vars.rdi, len: vars.rsi, prot: vars.rdx }
    } else if n == 12 {
        Syscall::Brk { addr: vars.rdi }
    } else if n == 13 {
        Syscall::RtSigaction { sig: vars.rdi, act: vars.rsi, oact: vars.rdx, sigsetsize: vars.r10 }
    } else if n == 14 {
        Syscall::Sigprocmask { how: vars.rdi, set: vars.rsi, oldset: vars.rdx }
    } else if n == 16 {
        Syscall::Ioctl { fd: vars.rdi, request: vars.rsi, ptr: vars.rdx }
    } else if n == 20 {
        Syscall::Writev { fd: vars.rdi, iov: vars.rsi, iovcnt: vars.rdx }
    } else if n == 27 {
        Syscall::Mincore { addr: vars.rdi, length: vars.rsi, vec: vars.rdx }
    } else if n == 39 {
        Syscall::Getpid
    } else if n == 63 {
        Syscall::Uname { name: vars.rdi }
    } else if n == 79 {
        Syscall::Getcwd { buf: vars.rdi, size: vars.rsi }
    } else if n == 102 {
        Syscall::Getuid
    } else if n == 104 {
        Syscall::Getgid
    } else if n == 105 {
        Syscall::Setuid { uid: vars.rdi }
    } else if n == 106 {
        Syscall::Setgid { gid: vars.rdi }
    } else if n == 110 {
        Syscall::Getppid
    } else if n == 158 {
        Syscall::ArchPrctl { code: vars.rdi, addr: vars.rsi }
    } else if n == 202 {
        Syscall::Futex { addr: vars.rdi, op: vars.rsi }
    } else if n == 218 {
        Syscall::SetTidAddress { tidptr: vars.rdi }
    } else if n == 231 {
        Syscall::ExitGroup { code: vars.rdi }
    } else {
        Syscall::Unknown { number: n }
    }
}

/// The result of the calls that are answered with a constant.
pub open spec fn spec_fixed_result(call: Syscall) -> Option<u64> {
    match call {
        Syscall::RtSigaction { .. } => Some(0),
        Syscall::Sigprocmask { .. } => Some(0),
        Syscall::Getpid => Some(1),
        Syscall::Uname { .. } => Some(0),
        Syscall::Getuid => Some(0),
        Syscall::Getgid => Some(0),
        Syscall::Setuid { .. } => Some(0),
        Syscall::Setgid { .. } => Some(0),
        Syscall::Getppid => Some(0),
        Syscall::Futex { .. } => Some(0),
        Syscall::SetTidAddress { .. } => Some(20),
        _ => None,
    }
}

/// The constant answer of `call`, if it has one: signals, identities and
/// futexes are accepted without effect; the process id is 1 and the thread
/// id 20.
pub fn fixed_result(call: &Syscall) -> (r: Option<u64>)
    ensures
        r == spec_fixed_result(*call),
{
    match call {
        Syscall::RtSigaction { .. } => Some(0),
        Syscall::Sigprocmask { .. } => Some(0),
        Syscall::Getpid => Some(1),
        Syscall::Uname { .. } => Some(0),
        Syscall::Getuid => Some(0),
        Syscall::Getgid => Some(0),
        Syscall::Setuid { .. } => Some(0),
        Syscall::Setgid { .. } => Some(0),
        Syscall::Getppid => Some(0),
        Syscall::Futex { .. } => Some(0),
        Syscall::SetTidAddress { .. } => Some(20),
        _ => None,
    }
}

/// Stores the result of a call where the caller reads it, in `rax`.
pub fn complete(vars: &mut InteruptStack, result: u64)
    ensures
        *final(vars) == (InteruptStack { rax: result, ..*old(vars) }),
{
    vars.rax = result;
}


/// Register of the `syscall` entry point.
pub const MSR_LSTAR: u32 = 0xC000_0082;
/// Register of the segments `syscall` and `sysret` load.
pub const MSR_STAR: u32 = 0xC000_0081;
/// Register of the flags `syscall` clears.
pub const MSR_FMASK: u32 = 0xC000_0084;
/// Extended feature enable register.
pub const MSR_EFER: u32 = 0xC000_0080;

/// The register writes that enable `syscall` with entry point `handler`:
/// the entry point, the kernel code selector 8 and the user base selector 27
/// in the high half of STAR, and no flags cleared.
pub fn init(handler: u64) -> (w: [MsrWrite; 3])
    ensures
        w@ == seq![
            MsrWrite { msr: MSR_LSTAR, edx: (handler >> 32u64) as u32, eax: handler as u32 },
            MsrWrite { msr: MSR_STAR, edx: (8 | (27u32 << 16u32)) as u32, eax: 0 },
            MsrWrite { msr: MSR_FMASK, edx: 0, eax: 0 },
        ],
{
    let w = [
        msr_write(MSR_LSTAR, handler),
        MsrWrite { msr: MSR_STAR, edx: 8 | (27u32 << 16u32), eax: 0 },
        MsrWrite { msr: MSR_FMASK, edx: 0, eax: 0 },
    ];
    assert(w@ =~= seq![
        MsrWrite { msr: MSR_LSTAR, edx: (handler >> 32u64) as u32, eax: handler as u32 },
        MsrWrite { msr: MSR_STAR, edx: (8 | (27u32 << 16u32)) as u32, eax: 0 },
        MsrWrite { msr: MSR_FMASK, edx: 0, eax: 0 },
    ]);
    w
}

/// The low half of EFER with the system call enable bit (bit 0) set.
pub fn efer_with_syscalls(efer_low: u32) -> (r: u32)
    ensures
        r == efer_low | 1,
        r & 1 == 1,
        r & !1u32 == efer_low & !1u32,
{
    let r = efer_low | 1;
    assert(r & 1 == 1 && r & !1u32 == efer_low & !1u32) by (bit_vector)
        requires
            r == efer_low | 1,
    ;
    r
}


/// The x86-64 system call convention: the number is in `rax`, and the
/// arguments of each call are, in order, `rdi`, `rsi`, `rdx`, `r10`, `r8`,
/// `r9`. Every number the kernel answers decodes to its call with the
/// arguments taken from those registers; any other number is unknown.
pub proof fn lemma_decode_abi(v: InteruptStack)
    ensures
        v.rax == 0 ==> spec_decode(v) == (Syscall::Read { fd: v.rdi, buf: v.rsi, count: v.rdx }),
        v.rax == 1 ==> spec_decode(v) == (Syscall::Write { fd: v.rdi, buf: v.rsi, count: v.rdx }),
        v.rax == 2 ==> spec_decode(v) == (Syscall::Open {
            pathname: v.rdi,
            flags: v.rsi,
            mode: v.rdx,
        }),
        v.rax == 3 ==> spec_decode(v) == (Syscall::Close { fd: v.rdi }),
        v.rax == 7 ==> spec_decode(v) == (Syscall::Poll { fds: v.rdi, nfds: v.rsi, timeout: v.rdx }),
        v.rax == 9 ==> spec_decode(v) == (Syscall::Mmap {
            addr: v.rdi,
            length: v.rsi,
            prot: v.rdx,
            flags: v.r10,
            fd: v.r8,
            offset: v.r9,
        }),
        v.rax == 10 ==> spec_decode(v) == (Syscall::Mprotect { addr: v.rdi, len: v.rsi, prot: v.rdx }),
        v.rax == 12 ==> spec_decode(v) == (Syscall::Brk { addr: v.rdi }),
        v.rax == 13 ==> spec_decode(v) == (Syscall::RtSigaction {
            sig: v.rdi,
            act: v.rsi,
            oact: v.rdx,
            sigsetsize: v.r10,
        }),
        v.rax == 14 ==> spec_decode(v) == (Syscall::Sigprocmask {
            how: v.rdi,
            set: v.rsi,
            oldset: v.rdx,
        }),
        v.rax == 16 ==> spec_decode(v) == (Syscall::Ioctl { fd: v.rdi, request: v.rsi, ptr: v.rdx }),
        v.rax == 20 ==> spec_decode(v) == (Syscall::Writev { fd: v.rdi, iov: v.rsi, iovcnt: v.rdx }),
        v.rax == 27 ==> spec_decode(v) == (Syscall::Mincore { addr: v.rdi, length: v.rsi, vec: v.rdx }),
        v.rax == 39 ==> spec_decode(v) == Syscall::Getpid,
        v.rax == 63 ==> spec_decode(v) == (Syscall::Uname { name: v.rdi }),
        v.rax == 79 ==> spec_decode(v) == (Syscall::Getcwd { buf: v.rdi, size: v.rsi }),
        v.rax == 102 ==> spec_decode(v) == Syscall::Getuid,
        v.rax == 104 ==> spec_decode(v) == Syscall::Getgid,
        v.rax == 105 ==> spec_decode(v) == (Syscall::Setuid { uid: v.rdi }),
        v.rax == 106 ==> spec_decode(v) == (Syscall::Setgid { gid: v.rdi }),
        v.rax == 110 ==> spec_decode(v) == Syscall::Getppid,
        v.rax == 158 ==> spec_decode(v) == (Syscall::ArchPrctl { code: v.rdi, addr: v.rsi }),
        v.rax == 202 ==> spec_decode(v) == (Syscall::Futex { addr: v.rdi, op: v.rsi }),
        v.rax == 218 ==> spec_decode(v) == (Syscall::SetTidAddress { tidptr: v.rdi }),
        v.rax == 231 ==> spec_decode(v) == (Syscall::ExitGroup { code: v.rdi }),
        !(v.rax == 0 || v.rax == 1 || v.rax == 2 || v.rax == 3 || v.rax == 7 || v.rax == 9
            || v.rax == 10 || v.rax == 12 || v.rax == 13 || v.rax == 14 || v.rax == 16 || v.rax
            == 20 || v.rax == 27 || v.rax == 39 || v.rax == 63 || v.rax == 79 || v.rax == 102
            || v.rax == 104 || v.rax == 105 || v.rax == 106 || v.rax == 110 || v.rax == 158
            || v.rax == 202 || v.rax == 218 || v.rax == 231) ==> spec_decode(v) == (
        Syscall::Unknown { number: v.rax }),
{
}

/// The calls answered with a constant, whatever their arguments: signal
/// handling, identities, `uname` and futexes succeed with 0, the process id
/// is 1 and the thread id 20. Every other call has no constant answer.
pub proof fn lemma_fixed_answers(call: Syscall)
    ensures
        call is RtSigaction ==> spec_fixed_result(call) == Some(0u64),
        call is Sigprocmask ==> spec_fixed_result(call) == Some(0u64),
        call is Uname ==> spec_fixed_result(call) == Some(0u64),
        call is Getuid ==> spec_fixed_result(call) == Some(0u64),
        call is Getgid ==> spec_fixed_result(call) == Some(0u64),
        call is Setuid ==> spec_fixed_result(call) == Some(0u64),
        call is Setgid ==> spec_fixed_result(call) == Some(0u64),
        call is Getppid ==> spec_fixed_result(call) == Some(0u64),
        call is Futex ==> spec_fixed_result(call) == Some(0u64),
        call is Getpid ==> spec_fixed_result(call) == Some(1u64),
        call is SetTidAddress ==> spec_fixed_result(call) == Some(20u64),
        call is Read || call is Write || call is Open || call is Close || call is Poll || call is Mmap
            || call is Mprotect || call is Brk || call is Ioctl || call is Writev || call is Mincore
            || call is Getcwd || call is ArchPrctl || call is ExitGroup || call is Unknown
            ==> spec_fixed_result(call) is None,
{
}

/// Decoding and the constant answers together: `rt_sigprocmask` (14) and the
/// other constant calls are answered from their number alone, for every
/// register set.
pub proof fn lemma_fixed_answers_by_number(v: InteruptStack)
    ensures
        v.rax == 13 || v.rax == 14 || v.rax == 63 || v.rax == 102 || v.rax == 104 || v.rax == 105
            || v.rax == 106 || v.rax == 110 || v.rax == 202 ==> spec_fixed_result(spec_decode(v))
            == Some(0u64),
        v.rax == 39 ==> spec_fixed_result(spec_decode(v)) == Some(1u64),
        v.rax == 218 ==> spec_fixed_result(spec_decode(v)) == Some(20u64),
{
    lemma_decode_abi(v);
    lemma_fixed_answers(spec_decode(v));
}

} // verus!
