//! ACPI: finding the root system description pointer in the BIOS area and
//! reading the table headers.
use vstd::prelude::*;
use crate::elf::header::le32;

verus! {

/// Physical address where the search for the root pointer starts.
pub const RSDP_SEARCH_START: usize = 0x000E_0000;
/// Last physical address at which the search looks.
pub const RSDP_SEARCH_END: usize = 0x000F_FFFF;
/// Number of candidate positions: one every 16 bytes from the start up to
/// and including the last address.
pub const RSDP_SLOTS: usize = 0x2000;
/// Size of the root pointer structure.
pub const RSDP_SIZE: usize = 36;
/// Size of a system description table header.
pub const SDT_HEADER_SIZE: usize = 36;

#[derive(Clone, Copy, Debug, PartialEq, Eq)]
pub struct Signature8(pub [u8; 8]);

#[derive(Clone, Copy, Debug, PartialEq, Eq)]
pub struct Signature4(pub [u8; 4]);

#[derive(Clone, Copy, Debug, PartialEq, Eq)]
pub struct OemId(pub [u8; 6]);

#[derive(Clone, Copy, Debug, PartialEq, Eq)]
pub struct OemTableId(pub [u8; 8]);

/// The root system description pointer.
#[derive(Clone, Copy, Debug)]
pub struct Rsdp {
    pub signature: Signature8,
    pub checksum: u8,
    pub oemid: OemId,
    pub revision: u8,
    pub rsdt_address: u32,
    pub length: u32,
    pub xsdt_address: u64,
    pub extended_checksum: u8,
    pub reserved: [u8; 3],
}

/// The header common to all system description tables.
#[derive(Clone, Copy, Debug)]
pub struct SdtHeader {
    pub signature: Signature4,
    pub length: u32,
    pub revision: u8,
    pub checksum: u8,
    pub oem_id: OemId,
    pub oem_table_id: OemTableId,
    pub oem_revision: u32,
    pub creator_id: u32,
    pub creator_revision: u32,
}

/// The signature "RSD PTR ".
pub open spec fn rsdp_signature() -> Seq<u8> {
    seq![0x52u8, 0x53u8, 0x44u8, 0x20u8, 0x50u8, 0x54u8, 0x52u8, 0x20u8]
}

/// The 8 bytes at offset `o` of `s` are the root pointer signature.
pub open spec fn signature_at(s: Seq<u8>, o: int) -> bool {
    s.subrange(o, o + 8) == rsdp_signature()
}

/// Candidate position `k` (offset `16 * k`) holds the signature.
pub open spec fn slot_matches(s: Seq<u8>, k: int) -> bool {
    signature_at(s, 16 * k)
}

/// The root pointer that the 36 bytes at offset `o` of `s` encode.
pub open spec fn decoded_rsdp(p: Rsdp, s: Seq<u8>, o: int) -> bool {
    &&& p.signature.0@ == s.subrange(o, o + 8)
    &&& p.checksum == s[o + 8]
    &&& p.oemid.0@ == s.subrange(o + 9, o + 15)
    &&& p.revision == s[o + 15]
    &&& p.rsdt_address == le32(s, o + 16)
    &&& p.length == le32(s, o + 20)
    &&& p.xsdt_address == le32(s, o + 24) + 0x1_0000_0000 * le32(s, o + 28)
    &&& p.extended_checksum == s[o + 32]
    &&& p.reserved@ == s.subrange(o + 33, o + 36)
}

/// The table header that the 36 bytes at the start of `s` encode.
pub open spec fn decoded_sdt_header(h: SdtHeader, s: Seq<u8>) -> bool {
    &&& h.signature.0@ == s.subrange(0, 4)
    &&& h.length == le32(s, 4)
    &&& h.revision == s[8]
    &&& h.checksum == s[9]
    &&& h.oem_id.0@ == s.subrange(10, 16)
    &&& h.oem_table_id.0@ == s.subrange(16, 24)
    &&& h.oem_revision == le32(s, 24)
    &&& h.creator_id == le32(s, 28)
    &&& h.creator_revision == le32(s, 32)
}

fn read_u32(s: &[u8], o: usize) -> (r: u32)
    requires
        o + 4 <= s@.len(),
    ensures
        r == le32(s@, o as int),
{
    s[o] as u32 + 0x100 * (s[o + 1] as u32) + 0x1_0000 * (s[o + 2] as u32 + 0x100 * (s[o
        + 3] as u32))
}

fn copy8(s: &[u8], o: usize) -> (r: [u8; 8])
    requires
        o + 8 <= s@.len(),
    ensures
        r@ == s@.subrange(o as int, o + 8),
{
    let r = [s[o], s[o + 1], s[o + 2], s[o + 3], s[o + 4], s[o + 5], s[o + 6], s[o + 7]];
    assert(r@ =~= s@.subrange(o as int, o + 8));
    r
}

fn copy6(s: &[u8], o: usize) -> (r: [u8; 6])
    requires
        o + 6 <= s@.len(),
    ensures
        r@ == s@.subrange(o as int, o + 6),
{
    let r = [s[o], s[o + 1], s[o + 2], s[o + 3], s[o + 4], s[o + 5]];
    assert(r@ =~= s@.subrange(o as int, o + 6));
    r
}

impl Rsdp {
    /// Reads the root pointer at offset `o` of `s`.
    pub fn read(s: &[u8], o: usize) -> (p: Rsdp)
        requires
            o + RSDP_SIZE <= s@.len(),
        ensures
            decoded_rsdp(p, s@, o as int),
    {
        let _n = s.len();
        let reserved = [s[o + 33], s[o + 34], s[o + 35]];
        let p = Rsdp {
            signature: Signature8(copy8(s, o)),
            checksum: s[o + 8],
            oemid: OemId(copy6(s, o + 9)),
            revision: s[o + 15],
            rsdt_address: read_u32(s, o + 16),
            length: read_u32(s, o + 20),
            xsdt_address: read_u32(s, o + 24) as u64 + 0x1_0000_0000 * (read_u32(s, o + 28) as u64),
            extended_checksum: s[o + 32],
            reserved,
        };
        assert(p.reserved@ =~= s@.subrange(o + 33, o + 36));
        p
    }
}

impl SdtHeader {
    /// Reads a table header from the start of `s`.
    pub fn read(s: &[u8]) -> (h: SdtHeader)
        requires
            SDT_HEADER_SIZE <= s@.len(),
        ensures
            decoded_sdt_header(h, s@),
    {
        let sig = [s[0], s[1], s[2], s[3]];
        let h = SdtHeader {
            signature: Signature4(sig),
            length: read_u32(s, 4),
            revision: s[8],
            checksum: s[9],
            oem_id: OemId(copy6(s, 10)),
            oem_table_id: OemTableId(copy8(s, 16)),
            oem_revision: read_u32(s, 24),
            creator_id: read_u32(s, 28),
            creator_revision: read_u32(s, 32),
        };
        assert(h.signature.0@ =~= s@.subrange(0, 4));
        h
    }
}

/// Searches the BIOS area for the root pointer. `area` holds the memory from
/// `RSDP_SEARCH_START` on; candidates are every 16 bytes up to
/// `RSDP_SEARCH_END`. Returns the first candidate whose signature matches.
pub fn find_rsdp(area: &[u8]) -> (r: Option<Rsdp>)
    requires
        16 * RSDP_SLOTS + RSDP_SIZE <= area@.len(),
    ensures
        match r {
            Some(p) => exists|k: int|
                0 <= k < RSDP_SLOTS && #[trigger] slot_matches(area@, k) && (forall|j: int|
                    0 <= j < k ==> !#[trigger] slot_matches(area@, j)) && decoded_rsdp(
                    p,
                    area@,
                    16 * k,
                ),
            None => forall|k: int| 0 <= k < RSDP_SLOTS ==> !#[trigger] slot_matches(area@, k),
        },
{
    let sig: [u8; 8] = [0x52, 0x53, 0x44, 0x20, 0x50, 0x54, 0x52, 0x20];
    assert(sig@ =~= rsdp_signature());
    let mut k: usize = 0;
    while k < RSDP_SLOTS
        invariant
            k <= RSDP_SLOTS,
            16 * RSDP_SLOTS + RSDP_SIZE <= area@.len(),
            sig@ == rsdp_signature(),
            forall|j: int| 0 <= j < k ==> !#[trigger] slot_matches(area@, j),
        decreases RSDP_SLOTS - k,
    {
        let o = 16 * k;
        let cand = copy8(area, o);
        let mut same = true;
        let mut i: usize = 0;
        while i < 8
            invariant
                i <= 8,
                same == (forall|j: int| 0 <= j < i ==> cand@[j] == sig@[j]),
            decreases 8 - i,
        {
            if cand[i] != sig[i] {
                same = false;
            }
            i = i + 1;
        }
        if same {
            assert(cand@ =~= sig@);
            assert(slot_matches(area@, k as int));
            return Some(Rsdp::read(area, o));
        }
        assert(!slot_matches(area@, k as int)) by {
            if slot_matches(area@, k as int) {
                assert(cand@ == sig@);
            }
        }
        k = k + 1;
    }
    None
}

/// Number of table addresses that follow the header in a root table of
/// `length` bytes: 4 bytes each.
pub fn sdt_entry_count(length: u32) -> (r: usize)
    requires
        length >= SDT_HEADER_SIZE,
    ensures
        r == (length - SDT_HEADER_SIZE) / 4,
{
    (length as usize - SDT_HEADER_SIZE) / 4
}

/// The first `count` table addresses of `data`, the bytes that follow a
/// root table's header: 32-bit little-endian values, one after the other.
pub fn sdt_entries(data: &[u8], count: usize) -> (r: Vec<u32>)
    requires
        4 * count <= data@.len(),
    ensures
        r@.len() == count,
        forall|x: int| 0 <= x < count ==> #[trigger] r@[x] == le32(data@, 4 * x),
{
    let n = data.len();
    let mut r: Vec<u32> = Vec::new();
    let mut x: usize = 0;
    while x < count
        invariant
            x <= count,
            n == data@.len(),
            4 * count <= n,
            r@.len() == x,
            forall|y: int| 0 <= y < x ==> #[trigger] r@[y] == le32(data@, 4 * y),
        decreases count - x,
    {
        r.push(read_u32(data, 4 * x));
        x = x + 1;
    }
    r
}

} // verus!
