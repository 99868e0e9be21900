//! `arch_prctl`: only setting the FS base is known.
use vstd::prelude::*;

verus! {

/// Code of the request that sets the FS segment base.
pub const ARCH_SET_FS: u64 = 0x1002;
/// The model-specific register that holds the FS base.
pub const MSR_FS_BASE: u32 = 0xC000_0100;

/// A write of a 64-bit value to a model-specific register, split the way
/// `wrmsr` takes it: high half in `edx`, low half in `eax`.
#[derive(Clone, Copy, Debug, PartialEq, Eq, Structural)]
pub struct MsrWrite {
    pub msr: u32,
    pub edx: u32,
    pub eax: u32,
}

/// Splits `value` for a write to `msr`.
pub fn msr_write(msr: u32, value: u64) -> (w: MsrWrite)
    ensures
        w.msr == msr,
        w.edx == (value >> 32u64) as u32,
        w.eax == value as u32,
        w.edx as u64 * 0x1_0000_0000 + w.eax as u64 == value,
{
    let w = MsrWrite { msr, edx: (value >> 32u64) as u32, eax: value as u32 };
    assert(((value >> 32u64) as u32) as u64 * 0x1_0000_0000u64 + (value as u32) as u64 == value)
        by (bit_vector);
    w
}

/// Setting the FS base to `addr`: the register write to perform, and the
/// answer to the caller, 0.
pub fn arch_prctl(code: u64, addr: u64) -> (r: (MsrWrite, u64))
    requires
        code == ARCH_SET_FS,
    ensures
        r.0 == (MsrWrite { msr: MSR_FS_BASE, edx: (addr >> 32u64) as u32, eax: addr as u32 }),
        r.1 == 0,
{
    (msr_write(MSR_FS_BASE, addr), 0)
}

} // verus!
