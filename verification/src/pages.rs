//! The page-number bump allocator. The first free page number is held by the
//! caller (the kernel keeps it behind a lock) and passed in.
use vstd::prelude::*;

verus! {

/// Sets the first free page number.
pub fn init_first_page(first_page: &mut u64, page: u64)
    ensures
        *final(first_page) == page,
{
    *first_page = page;
}

/// Hands out `num_pages` pages starting at the first free one and moves the
/// first free page past them.
pub fn alloc_pages(first_page: &mut u64, num_pages: u64) -> (r: u64)
    requires
        *old(first_page) + num_pages <= u64::MAX,
    ensures
        r == *old(first_page),
        *final(first_page) == *old(first_page) + num_pages,
{
    let result = *first_page;
    *first_page = *first_page + num_pages;
    result
}

/// Returning pages is not supported: the allocator only moves forward.
pub fn free(page: usize, num_pages: usize) {
}

/// Two allocations in a row hand out adjacent, disjoint runs of pages.
pub proof fn lemma_alloc_runs_adjacent(first: u64, n1: u64, n2: u64)
    requires
        first + n1 + n2 <= u64::MAX,
    ensures
        ({
            let r1 = first;
            let r2 = first + n1;
            &&& r1 + n1 == r2
            &&& r2 + n2 == first + n1 + n2
        }),
{
}

} // verus!
