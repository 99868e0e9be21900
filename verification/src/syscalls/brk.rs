//! `brk`: the program break.
use vstd::prelude::*;

verus! {

/// Where the program break starts.
pub const INITIAL_BREAK: u64 = 0x1000_0000;

/// Asking with 0 gives the initial break; any other address is granted as is.
pub fn brk(addr: u64) -> (r: u64)
    ensures
        r == (if addr == 0 { INITIAL_BREAK } else { addr }),
{
    if addr == 0 {
        INITIAL_BREAK
    } else {
        addr
    }
}

} // verus!
