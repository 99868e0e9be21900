//! `mprotect`: accepted without effect.
use vstd::prelude::*;
use super::mmap::ProtFlags;

verus! {

pub fn mprotect(addr: u64, len: u64, prot: ProtFlags) -> (r: u64)
    ensures
        r == 0,
{
    0
}

} // verus!
