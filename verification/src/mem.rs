//! The kernel heap's bump pointer and copying strings into C buffers.
use vstd::prelude::*;
use vstd::string::StringSliceAdditionalSpecFns;

verus! {

/// The bump allocation: hands out `*last_ptr`, then moves it past `size`
/// bytes and further by the remainder of the new position modulo 16.
pub fn malloc(last_ptr: &mut usize, size: u64) -> (r: usize)
    requires
        size <= usize::MAX,
        malloc_next(*old(last_ptr) as int, size as int) <= usize::MAX,
    ensures
        r == *old(last_ptr),
        *final(last_ptr) == malloc_next(*old(last_ptr) as int, size as int),
{
    let result = *last_ptr;
    *last_ptr = *last_ptr + size as usize;
    *last_ptr = *last_ptr + *last_ptr % 16;
    result
}

/// Copies the bytes of `s` and a terminating NUL to the start of `dst`.
pub fn copy_str_safe(dst: &mut [u8], s: &str)
    requires
        s.spec_bytes().len() + 1 < old(dst)@.len(),
    ensures
        final(dst)@.len() == old(dst)@.len(),
        final(dst)@.subrange(0, s.spec_bytes().len() + 1 as int) == s.spec_bytes().push(0u8),
        final(dst)@.subrange(s.spec_bytes().len() + 1 as int, old(dst)@.len() as int) == old(dst)@.subrange(
            s.spec_bytes().len() + 1 as int,
            old(dst)@.len() as int,
        ),
{
    let bytes = s.as_bytes();
    let len = bytes.len();
    let mut i: usize = 0;
    while i < len
        invariant
            i <= len,
            len == bytes@.len(),
            bytes@ == s.spec_bytes(),
            len + 1 < dst@.len(),
            dst@.len() == old(dst)@.len(),
            forall|j: int| 0 <= j < i ==> #[trigger] dst@[j] == bytes@[j],
            forall|j: int| i <= j < dst@.len() ==> #[trigger] dst@[j] == old(dst)@[j],
        decreases len - i,
    {
        dst[i] = bytes[i];
        i = i + 1;
    }
    dst[len] = 0;
    assert(dst@.subrange(0, len + 1) =~= s.spec_bytes().push(0u8));
    assert(dst@.subrange(len + 1, dst@.len() as int) =~= old(dst)@.subrange(len + 1, old(dst)@.len() as int));
}


/// The heap pointer after `malloc(size)` from `h`.
pub open spec fn malloc_next(h: int, size: int) -> int {
    (h + size) + (h + size) % 16
}

/// A block handed out by `malloc` ends before the next block starts: blocks
/// never overlap and come out in increasing order.
pub proof fn lemma_malloc_blocks_disjoint(h: int, size1: int, size2: int)
    requires
        h >= 0,
        size1 >= 0,
        size2 >= 0,
    ensures
        h + size1 <= malloc_next(h, size1),
        malloc_next(h, size1) + size2 <= malloc_next(malloc_next(h, size1), size2),
{
}

} // verus!
