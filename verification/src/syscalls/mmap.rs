//! `mmap`: maps the embedded program image (or nothing) at an address.
use vstd::prelude::*;

verus! {

pub const PROT_NONE: i32 = 0x00;
pub const PROT_READ: i32 = 0x01;
pub const PROT_WRITE: i32 = 0x02;
pub const PROT_EXEC: i32 = 0x04;

pub const MAP_SHARED: i32 = 0x01;
pub const MAP_PRIVATE: i32 = 0x02;
pub const MAP_SHARED_VALIDATE: i32 = 0x03;
pub const MAP_FIXED: i32 = 0x10;
pub const MAP_ANONYMOUS: i32 = 0x20;
pub const MAP_HUGETLB: i32 = 0x40000;
pub const MAP_UNINITIALIZED: i32 = 0x4000000;
pub const MAP_FIXED_NOREPLACE: i32 = 0x100000;
pub const MAP_NORESERVE: i32 = 0x4000;

/// Every known protection bit.
pub const PROT_ALL: i32 = 0x07;
/// Every known mapping flag bit.
pub const MAP_ALL: i32 = 0x414_4033;

/// Where a mapping goes when the caller names no address.
pub const DEFAULT_MMAP_ADDR: u64 = 0x6000_0000;

/// Memory protection bits.
#[derive(Clone, Copy, Debug, PartialEq, Eq, Structural)]
pub struct ProtFlags {
    pub bits: i32,
}

/// Mapping flag bits.
#[derive(Clone, Copy, Debug, PartialEq, Eq, Structural)]
pub struct MapFlags {
    pub bits: i32,
}

/// The bits hold no unknown flag.
pub open spec fn only_known(bits: i32, all: i32) -> bool {
    bits & !all == 0
}

impl ProtFlags {
    /// The flags for `bits`, or `None` when a bit is not a known flag.
    pub fn from_bits(bits: i32) -> (r: Option<ProtFlags>)
        ensures
            r == (if only_known(bits, PROT_ALL) {
                Some(ProtFlags { bits })
            } else {
                None
            }),
    {
        if bits & !PROT_ALL == 0 {
            Some(ProtFlags { bits })
        } else {
            None
        }
    }
}

impl MapFlags {
    /// The flags for `bits`, or `None` when a bit is not a known flag.
    pub fn from_bits(bits: i32) -> (r: Option<MapFlags>)
        ensures
            r == (if only_known(bits, MAP_ALL) {
                Some(MapFlags { bits })
            } else {
                None
            }),
    {
        if bits & !MAP_ALL == 0 {
            Some(MapFlags { bits })
        } else {
            None
        }
    }
}

/// What a mapping does: zero `length` bytes at `addr`, then, when `offset`
/// lies within the image, copy `copy_len` bytes of the image, starting
/// `offset` bytes in, to `addr`. An offset past the end of the image is an
/// error, found after the zeroing.
#[derive(Clone, Copy, Debug, PartialEq, Eq, Structural)]
pub struct MmapPlan {
    pub addr: u64,
    pub length: u64,
    pub offset: u64,
    pub offset_ok: bool,
    pub copy_len: u64,
}

/// Plans the mapping of `length` bytes at `addr` (or at the default address
/// when `addr` is 0) filled from an image of `file_length` bytes starting at
/// `offset`. The answer to the caller is `plan.addr`.
pub fn mmap(
    addr: u64,
    length: u64,
    prot: ProtFlags,
    flags: MapFlags,
    fd: u64,
    offset: u64,
    file_length: u64,
) -> (plan: MmapPlan)
    ensures
        plan.addr == (if addr == 0 { DEFAULT_MMAP_ADDR } else { addr }),
        plan.length == length,
        plan.offset == offset,
        plan.offset_ok == (offset <= file_length),
        plan.offset_ok ==> plan.copy_len == (if length < file_length - offset { length as int } else {
            file_length - offset }),
        !plan.offset_ok ==> plan.copy_len == 0,
        plan.copy_len <= length,
        plan.offset_ok ==> plan.offset + plan.copy_len <= file_length,
{
    let a = if addr == 0 {
        DEFAULT_MMAP_ADDR
    } else {
        addr
    };
    if offset > file_length {
        return MmapPlan { addr: a, length, offset, offset_ok: false, copy_len: 0 };
    }
    let mut copy_len = file_length - offset;
    if length < copy_len {
        copy_len = length;
    }
    MmapPlan { addr: a, length, offset, offset_ok: true, copy_len }
}

} // verus!
