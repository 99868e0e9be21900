//! The registers saved on an interrupt and what each interrupt number asks for.
use vstd::prelude::*;

verus! {

/// The registers the common interrupt entry pushes, lowest address first.
#[derive(Clone, Copy, Debug)]
pub struct InteruptStack {
    pub r11: u64,
    pub r10: u64,
    pub r9: u64,
    pub r8: u64,
    pub rax: u64,
    pub rcx: u64,
    pub rdx: u64,
    pub rsi: u64,
    pub rdi: u64,
    pub number: u64,
    pub code: u64,
    pub rip: u64,
    pub cs: u64,
    pub flags: u64,
    pub rsp: u64,
    pub ds: u64,
}

/// What the kernel does for an interrupt.
#[derive(Clone, Copy, Debug, PartialEq, Eq, Structural)]
pub enum InterruptAction {
    /// Debug (3) and timer (32) interrupts: nothing to do.
    Ignore,
    /// Page fault (14).
    PageFault,
    /// General protection fault (13): fatal, at the given instruction.
    GeneralProtection { rip: u64 },
    /// System call (0x80).
    Syscall,
    /// Any other vector: fatal.
    Unknown { number: u64 },
}

/// Chooses what to do for the interrupt whose registers are `vars`.
pub fn interrupt_action(vars: &InteruptStack) -> (r: InterruptAction)
    ensures
        r == (if vars.number == 3 || vars.number == 32 {
            InterruptAction::Ignore
        } else if vars.number == 14 {
            InterruptAction::PageFault
        } else if vars.number == 13 {
            InterruptAction::GeneralProtection { rip: vars.rip }
        } else if vars.number == 0x80 {
            InterruptAction::Syscall
        } else {
            InterruptAction::Unknown { number: vars.number }
        }),
{
    let irq = vars.number;
    if irq == 3 {
        InterruptAction::Ignore
    } else if irq == 14 {
        InterruptAction::PageFault
    } else if irq == 32 {
        InterruptAction::Ignore
    } else if irq == 13 {
        InterruptAction::GeneralProtection { rip: vars.rip }
    } else if irq == 0x80 {
        InterruptAction::Syscall
    } else {
        InterruptAction::Unknown { number: irq }
    }
}

} // verus!
