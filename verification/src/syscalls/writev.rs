//! `writev`: every buffer goes to the console; the answer is the total length.
use vstd::prelude::*;

verus! {

/// One buffer of a vectored write.
#[derive(Clone, Copy, Debug, PartialEq, Eq, Structural)]
pub struct Iovec {
    pub iov_base: usize,
    pub iov_len: usize,
}

/// Total length of the buffers.
pub open spec fn total_len(vecs: Seq<Iovec>) -> int
    decreases vecs.len(),
{
    if vecs.len() == 0 {
        0
    } else {
        total_len(vecs.drop_last()) + vecs.last().iov_len
    }
}

proof fn lemma_total_len_prefix(vecs: Seq<Iovec>, i: int)
    requires
        0 <= i <= vecs.len(),
    ensures
        total_len(vecs.take(i)) <= total_len(vecs),
    decreases vecs.len() - i,
{
    if i < vecs.len() {
        lemma_total_len_prefix(vecs, i + 1);
        assert(vecs.take(i + 1).drop_last() =~= vecs.take(i));
    } else {
        assert(vecs.take(i) =~= vecs);
    }
}

/// The number of bytes written: the sum of the buffer lengths.
pub fn writev(fd: u64, vecs: &[Iovec]) -> (r: u64)
    requires
        total_len(vecs@) <= usize::MAX,
    ensures
        r == total_len(vecs@),
{
    let mut bytes_written: usize = 0;
    let mut i: usize = 0;
    while i < vecs.len()
        invariant
            i <= vecs@.len(),
            bytes_written == total_len(vecs@.take(i as int)),
            total_len(vecs@) <= usize::MAX,
        decreases vecs@.len() - i,
    {
        proof {
            lemma_total_len_prefix(vecs@, i as int + 1);
            assert(vecs@.take(i as int + 1).drop_last() =~= vecs@.take(i as int));
        }
        bytes_written = bytes_written + vecs[i].iov_len;
        i = i + 1;
    }
    assert(vecs@.take(i as int) =~= vecs@);
    bytes_written as u64
}


/// The written total is the sum of the buffer lengths: nothing for no
/// buffers, a buffer's length for one buffer, and the totals of two lists of
/// buffers add up when the lists are joined.
pub proof fn lemma_total_len_sum(a: Seq<Iovec>, b: Seq<Iovec>, v: Iovec)
    ensures
        total_len(Seq::<Iovec>::empty()) == 0,
        total_len(seq![v]) == v.iov_len,
        total_len(a + b) == total_len(a) + total_len(b),
    decreases b.len(),
{
    assert(seq![v].drop_last() =~= Seq::<Iovec>::empty());
    if b.len() == 0 {
        assert(a + b =~= a);
    } else {
        lemma_total_len_sum(a, b.drop_last(), v);
        assert((a + b).drop_last() =~= a + b.drop_last());
        assert((a + b).last() == b.last());
    }
}

} // verus!
