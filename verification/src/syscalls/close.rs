//! `close`: always succeeds.
use vstd::prelude::*;

verus! {

pub fn close(fd: u64) -> (r: u64)
    ensures
        r == 0,
{
    0
}

} // verus!
