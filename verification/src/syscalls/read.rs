//! `read`: reads from the one open file, the embedded program image, at the
//! current position.
use vstd::prelude::*;

verus! {

/// Reads up to `count` bytes from position `*pos` of a file that ends at
/// `end`; returns how many bytes to copy and moves the position past them.
pub fn read(pos: &mut usize, end: usize, count: u64) -> (r: u64)
    requires
        *old(pos) <= end,
    ensures
        r == (if end - *old(pos) > count { count as int } else { end - *old(pos) }),
        *final(pos) == *old(pos) + r,
        *final(pos) <= end,
{
    let mut to_read: usize = end - *pos;
    if to_read as u64 > count {
        to_read = count as usize;
    }
    *pos = *pos + to_read;
    to_read as u64
}

} // verus!
