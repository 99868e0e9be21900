//! Helpers around the ACPICA library: NUL-terminated path buffers and the
//! mapping of its status codes.
use vstd::prelude::*;
use vstd::string::StringSliceAdditionalSpecFns;

verus! {

/// The status ACPICA returns on success.
pub const AE_OK: u32 = 0;
/// Handle of the namespace root, used when no parent is given.
pub const ACPI_NO_PARENT: usize = 0;

/// A NUL-terminated string in a fixed 256-byte buffer.
pub struct CStr(pub [u8; 256]);

impl CStr {
    /// The bytes of `s`, then zeros up to the end of the buffer.
    pub fn new(s: &str) -> (c: CStr)
        requires
            s.spec_bytes().len() < 256,
        ensures
            c.0@ == s.spec_bytes() + Seq::new((256 - s.spec_bytes().len()) as nat, |i: int| 0u8),
    {
        let bytes = s.as_bytes();
        let len = bytes.len();
        let mut c_str = [0u8; 256];
        let mut i: usize = 0;
        while i < len
            invariant
                i <= len,
                len == bytes@.len(),
                len < 256,
                forall|j: int| 0 <= j < i ==> #[trigger] c_str@[j] == bytes@[j],
                forall|j: int| i <= j < 256 ==> #[trigger] c_str@[j] == 0,
            decreases len - i,
        {
            c_str[i] = bytes[i];
            i = i + 1;
        }
        c_str[len] = 0;
        assert(c_str@ =~= s.spec_bytes() + Seq::new((256 - len) as nat, |i: int| 0u8));
        CStr(c_str)
    }
}

/// The handle to pass for an optional parent: the parent, or the root.
pub fn parent_handle(parent: Option<usize>) -> (h: usize)
    ensures
        h == (match parent {
            Some(x) => x,
            None => ACPI_NO_PARENT,
        }),
{
    match parent {
        Some(x) => x,
        None => 0,
    }
}

/// The outcome of an ACPICA call that produced `value`: the value on
/// success, the status otherwise.
pub fn status_result<T>(status: u32, value: T) -> (r: Result<T, u32>)
    ensures
        r == (if status == AE_OK {
            Ok::<T, u32>(value)
        } else {
            Err::<T, u32>(status)
        }),
{
    if status == 0 {
        Ok(value)
    } else {
        Err(status)
    }
}

/// The first semaphore or lock handle handed out after boot.
pub const FIRST_HANDLE: usize = 1;

/// The handle counter after `n` creations from `start`: each creation moves
/// it on by one.
pub open spec fn counter_after(start: int, n: nat) -> int
    decreases n,
{
    if n == 0 {
        start
    } else {
        counter_after(start, (n - 1) as nat) + 1
    }
}

/// Creates a semaphore or lock: stores the counter's value in `out` as the
/// new handle, moves the counter on by one and reports success.
pub fn create_handle(counter: &mut usize, out: &mut usize) -> (status: u32)
    requires
        *old(counter) < usize::MAX,
    ensures
        status == AE_OK,
        *final(out) == *old(counter),
        *final(counter) == counter_after(*old(counter) as int, 1),
{
    let c = *counter;
    *out = c;
    *counter = c + 1;
    assert(counter_after(c as int, 0) == c);
    AE_OK
}

/// Handles never repeat: the creation number `i` after boot (counting from
/// 0) finds the counter at `FIRST_HANDLE + i`, below its maximum, so
/// `create_handle` accepts it and stores `FIRST_HANDLE + i`; two different
/// creations store two different handles, the later one larger. The counter
/// overflows only after `usize::MAX - FIRST_HANDLE` creations.
pub proof fn lemma_handles_distinct(i: nat, j: nat)
    requires
        i < j < usize::MAX - FIRST_HANDLE,
    ensures
        counter_after(FIRST_HANDLE as int, i) == FIRST_HANDLE + i,
        counter_after(FIRST_HANDLE as int, j) == FIRST_HANDLE + j,
        counter_after(FIRST_HANDLE as int, i) < usize::MAX,
        counter_after(FIRST_HANDLE as int, j) < usize::MAX,
        counter_after(FIRST_HANDLE as int, i) < counter_after(FIRST_HANDLE as int, j),
{
    lemma_counter_after(FIRST_HANDLE as int, i);
    lemma_counter_after(FIRST_HANDLE as int, j);
}

proof fn lemma_counter_after(start: int, n: nat)
    ensures
        counter_after(start, n) == start + n,
    decreases n,
{
    if n > 0 {
        lemma_counter_after(start, (n - 1) as nat);
    }
}

/// The width of a port access that ACPICA asks for.
#[derive(Clone, Copy, Debug, PartialEq, Eq, Structural)]
pub enum PortWidth {
    Byte,
    Word,
    Dword,
}

/// The access for a width of `bits` bits: 8, 16 or 32; any other width is
/// not supported.
pub fn port_width(bits: u32) -> (r: Option<PortWidth>)
    ensures
        r == (if bits == 8 {
            Some(PortWidth::Byte)
        } else if bits == 16 {
            Some(PortWidth::Word)
        } else if bits == 32 {
            Some(PortWidth::Dword)
        } else {
            None::<PortWidth>
        }),
{
    if bits == 8 {
        Some(PortWidth::Byte)
    } else if bits == 16 {
        Some(PortWidth::Word)
    } else if bits == 32 {
        Some(PortWidth::Dword)
    } else {
        None
    }
}

/// At most this many bytes of a message from ACPICA are printed.
pub const PRINT_LIMIT: usize = 200;

/// How many bytes of `buf` to print: those before the first NUL, looking
/// at no more than `PRINT_LIMIT` bytes.
pub fn printable_len(buf: &[u8]) -> (r: usize)
    ensures
        r <= buf@.len(),
        r <= PRINT_LIMIT,
        forall|j: int| 0 <= j < r ==> buf@[j] != 0,
        r < buf@.len() && r < PRINT_LIMIT ==> buf@[r as int] == 0,
{
    let mut i: usize = 0;
    while i < buf.len() && i < PRINT_LIMIT
        invariant
            i <= buf@.len(),
            i <= PRINT_LIMIT,
            forall|j: int| 0 <= j < i ==> buf@[j] != 0,
        decreases buf@.len() - i,
    {
        if buf[i] == 0 {
            return i;
        }
        i = i + 1;
    }
    i
}

} // verus!
