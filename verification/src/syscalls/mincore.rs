//! `mincore`: reports success without filling the vector.
use vstd::prelude::*;

verus! {

pub fn mincore(addr: u64, length: u64, vec: u64) -> (r: u64)
    ensures
        r == 0,
{
    0
}

} // verus!
