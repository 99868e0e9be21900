//! `getcwd`: the working directory is always the root.
use vstd::prelude::*;
use vstd::string::StringSliceAdditionalSpecFns;
use crate::mem::copy_str_safe;

verus! {

/// Writes "/" and a NUL into `dst`, the caller's buffer at address `buf`,
/// and returns `buf`.
pub fn getcwd(buf: u64, dst: &mut [u8]) -> (r: u64)
    requires
        "/".spec_bytes().len() + 1 < old(dst)@.len(),
    ensures
        r == buf,
        final(dst)@.len() == old(dst)@.len(),
        final(dst)@.subrange(0, "/".spec_bytes().len() + 1 as int) == "/".spec_bytes().push(0u8),
        final(dst)@.subrange("/".spec_bytes().len() + 1 as int, old(dst)@.len() as int) == old(
            dst,
        )@.subrange("/".spec_bytes().len() + 1 as int, old(dst)@.len() as int),
{
    copy_str_safe(dst, "/");
    buf
}

} // verus!
