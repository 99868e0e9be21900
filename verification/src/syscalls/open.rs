//! `open`: the terminal is refused; every other path opens the embedded
//! program image from its start.
use vstd::prelude::*;
use vstd::string::StringSliceAdditionalSpecFns;

verus! {

/// The descriptor that every successful open returns.
pub const OPEN_FD: u64 = 3;

/// What opening a path does.
#[derive(Clone, Copy, Debug, PartialEq, Eq, Structural)]
pub struct OpenOutcome {
    /// The answer to the caller.
    pub result: u64,
    /// The read position goes back to the start of the image.
    pub rewind: bool,
}

fn bytes_eq(a: &[u8], b: &[u8]) -> (r: bool)
    ensures
        r == (a@ == b@),
{
    if a.len() != b.len() {
        return false;
    }
    let mut i: usize = 0;
    while i < a.len()
        invariant
            a@.len() == b@.len(),
            i <= a@.len(),
            forall|j: int| 0 <= j < i ==> a@[j] == b@[j],
        decreases a@.len() - i,
    {
        if a[i] != b[i] {
            return false;
        }
        i = i + 1;
    }
    assert(a@ =~= b@);
    true
}

/// Opening "/dev/tty" fails with -1; any other path opens the image.
pub fn open(pathname: &str, flags: u64, mode: u64) -> (r: OpenOutcome)
    ensures
        r == (if pathname.spec_bytes() == "/dev/tty".spec_bytes() {
            OpenOutcome { result: u64::MAX, rewind: false }
        } else {
            OpenOutcome { result: OPEN_FD, rewind: true }
        }),
{
    if bytes_eq(pathname.as_bytes(), "/dev/tty".as_bytes()) {
        OpenOutcome { result: 0xFFFF_FFFF_FFFF_FFFF, rewind: false }
    } else {
        OpenOutcome { result: OPEN_FD, rewind: true }
    }
}

} // verus!
