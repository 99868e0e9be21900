//! Four-level x86-64 page tables: entries, tables, the frame arena that
//! backs them, and the walk that creates missing levels on demand.
use vstd::prelude::*;

verus! {

/// Entry is present.
pub const PRESENT: u64 = 0x1;
/// Writes are allowed through this entry.
pub const WRITABLE: u64 = 0x2;
/// Ring 3 may access memory through this entry.
pub const USER_ACCESSIBLE: u64 = 0x4;
pub const WRITE_THROUGH: u64 = 0x8;
pub const NO_CACHE: u64 = 0x10;
pub const ACCESSED: u64 = 0x20;
pub const DIRTY: u64 = 0x40;
pub const HUGE_PAGE: u64 = 0x80;
pub const GLOBAL: u64 = 0x100;
/// The bits of an entry that hold the physical frame address.
pub const ADDRESS: u64 = 0x000F_FFFF_FFFF_F000;
pub const NO_EXECUTE: u64 = 0x8000_0000_0000_0000;

/// Size of one page and of one page table.
pub const PAGE_SIZE: u64 = 4096;
/// Physical addresses an entry can hold lie below this bound.
pub const PHYS_LIMIT: u64 = 0x0010_0000_0000_0000;
/// First physical page handed out by the frame allocator.
pub const FIRST_FREE_PAGE: u64 = 0x80_0000;

/// A set of page table entry flags, as raw bits.
#[derive(Clone, Copy, Debug, PartialEq, Eq, Structural)]
pub struct EntryFlags {
    pub bits: u64,
}

impl EntryFlags {
    pub fn bits(&self) -> (r: u64)
        ensures
            r == self.bits,
    {
        self.bits
    }
}

/// The flags that the walk gives every entry it creates.
pub open spec fn table_flags() -> u64 {
    PRESENT | WRITABLE | USER_ACCESSIBLE
}

pub open spec fn entry_present(e: u64) -> bool {
    e & PRESENT != 0
}

pub open spec fn entry_address(e: u64) -> u64 {
    e & ADDRESS
}

/// Index into the level-4 table (bits 39..48 of the address).
pub open spec fn l4_index(addr: u64) -> u64 {
    (addr >> 39u64) & 0x1ff
}

/// Index into the level-3 table (bits 30..39).
pub open spec fn l3_index(addr: u64) -> u64 {
    (addr >> 30u64) & 0x1ff
}

/// Index into the level-2 table (bits 21..30).
pub open spec fn l2_index(addr: u64) -> u64 {
    (addr >> 21u64) & 0x1ff
}

/// Index into the level-1 table (bits 12..21).
pub open spec fn l1_index(addr: u64) -> u64 {
    (addr >> 12u64) & 0x1ff
}

/// Offset inside the 4 KiB page (bits 0..12).
pub open spec fn page_offset(addr: u64) -> u64 {
    addr & 0xfff
}

#[derive(Clone, Copy, Debug)]
pub struct PageTableEntry(pub u64);

/// One page table: 512 entries filling one 4 KiB frame.
#[derive(Clone, Copy)]
pub struct PageTable(pub [PageTableEntry; 512]);

impl PageTableEntry {
    pub fn new() -> (e: Self)
        ensures
            e.0 == 0,
    {
        PageTableEntry(0)
    }

    pub fn is_present(&self) -> (r: bool)
        ensures
            r == entry_present(self.0),
    {
        self.0 & PRESENT != 0
    }

    /// The physical address that this entry points at.
    pub fn address(&self) -> (r: u64)
        ensures
            r == entry_address(self.0),
    {
        self.0 & ADDRESS
    }

    /// Replaces the address bits and keeps every other bit.
    pub fn set_address(&mut self, addr: u64)
        ensures
            final(self).0 & ADDRESS == addr & ADDRESS,
            final(self).0 & !ADDRESS == old(self).0 & !ADDRESS,
    {
        let v = self.0;
        let r = (v & !ADDRESS) | (addr & ADDRESS);
        assert(r & ADDRESS == addr & ADDRESS && r & !ADDRESS == v & !ADDRESS) by (bit_vector)
            requires
                r == (v & !ADDRESS) | (addr & ADDRESS),
        ;
        self.0 = r;
    }

    /// Overwrites the entry with the given flags and the address bits of `addr`.
    pub fn set(&mut self, addr: u64, flags: EntryFlags)
        ensures
            final(self).0 == flags.bits | (addr & ADDRESS),
    {
        self.0 = flags.bits() | (addr & ADDRESS);
    }

    /// Sets the given flag bits.
    pub fn set_flags(&mut self, flags: EntryFlags)
        ensures
            final(self).0 == old(self).0 | flags.bits,
    {
        self.0 = self.0 | flags.bits();
    }

    /// Clears the given flag bits.
    pub fn clear_flags(&mut self, flags: EntryFlags)
        ensures
            final(self).0 == old(self).0 & !flags.bits,
    {
        self.0 = self.0 & !flags.bits();
    }
}

/// An entry written by `set` with the present bit and an aligned frame below
/// the physical limit is present and points at that frame.
pub proof fn lemma_set_entry(addr: u64, flags: u64)
    requires
        addr % 4096 == 0,
        addr < PHYS_LIMIT,
        flags & PRESENT != 0,
        flags & ADDRESS == 0,
    ensures
        entry_present(flags | (addr & ADDRESS)),
        entry_address(flags | (addr & ADDRESS)) == addr,
        addr & ADDRESS == addr,
{
    assert((flags | (addr & 0x000F_FFFF_FFFF_F000u64)) & 1u64 != 0 && (flags | (addr
        & 0x000F_FFFF_FFFF_F000u64)) & 0x000F_FFFF_FFFF_F000u64 == addr && addr
        & 0x000F_FFFF_FFFF_F000u64 == addr) by (bit_vector)
        requires
            addr % 4096 == 0,
            addr < 0x0010_0000_0000_0000u64,
            flags & 1u64 != 0,
            flags & 0x000F_FFFF_FFFF_F000u64 == 0,
    ;
}

/// Clearing flags undoes setting them, up to the bits that were set before.
pub proof fn lemma_clear_undoes_set_flags(e: u64, f: u64)
    ensures
        (e | f) & !f == e & !f,
        (e & !f) | f == e | f,
{
    assert((e | f) & !f == e & !f && (e & !f) | f == e | f) by (bit_vector);
}

/// The address and the non-address bits of an entry determine it: `set_address`
/// keeps the present bit and all other flags.
pub proof fn lemma_set_address_keeps_flags(old_e: u64, new_e: u64, addr: u64)
    requires
        new_e & ADDRESS == addr & ADDRESS,
        new_e & !ADDRESS == old_e & !ADDRESS,
    ensures
        entry_present(new_e) == entry_present(old_e),
        entry_address(new_e) == entry_address(addr),
        new_e == (old_e & !ADDRESS) | (addr & ADDRESS),
{
    assert(((new_e & 1u64 != 0) == (old_e & 1u64 != 0)) && new_e == (old_e
        & !0x000F_FFFF_FFFF_F000u64) | (addr & 0x000F_FFFF_FFFF_F000u64)) by (bit_vector)
        requires
            new_e & 0x000F_FFFF_FFFF_F000u64 == addr & 0x000F_FFFF_FFFF_F000u64,
            new_e & !0x000F_FFFF_FFFF_F000u64 == old_e & !0x000F_FFFF_FFFF_F000u64,
    ;
}

impl PageTable {
    /// A table with every entry zero (not present).
    pub fn new() -> (t: Self)
        ensures
            forall|i: int| 0 <= i < 512 ==> (#[trigger] t.0@[i]).0 == 0,
    {
        PageTable([PageTableEntry(0); 512])
    }

    /// Splits a virtual address into its four table indices and the page offset.
    pub fn address_to_tables(addr: u64) -> (r: (usize, usize, usize, usize, usize))
        ensures
            r.0 == l4_index(addr),
            r.1 == l3_index(addr),
            r.2 == l2_index(addr),
            r.3 == l1_index(addr),
            r.4 == page_offset(addr),
            r.0 < 512 && r.1 < 512 && r.2 < 512 && r.3 < 512 && r.4 < 4096,
    {
        let a = ((addr >> 39u64) & 0x1ff) as usize;
        let b = ((addr >> 30u64) & 0x1ff) as usize;
        let c = ((addr >> 21u64) & 0x1ff) as usize;
        let d = ((addr >> 12u64) & 0x1ff) as usize;
        let e = (addr & 0xfff) as usize;
        assert(((addr >> 39u64) & 0x1ff) < 512 && ((addr >> 30u64) & 0x1ff) < 512 && ((addr
            >> 21u64) & 0x1ff) < 512 && ((addr >> 12u64) & 0x1ff) < 512 && (addr & 0xfff)
            < 4096) by (bit_vector);
        (a, b, c, d, e)
    }

    /// Copies entry `index` of `other` into this table.
    pub fn copy_entry_from(&mut self, other: &PageTable, index: usize)
        requires
            index < 512,
        ensures
            final(self).0@ == old(self).0@.update(index as int, other.0@[index as int]),
    {
        self.0[index] = other.0[index];
    }
}

/// The four indices and the offset put back together give the low 48 bits of
/// the address.
pub proof fn lemma_address_to_tables_roundtrip(addr: u64)
    ensures
        (l4_index(addr) << 39u64) | (l3_index(addr) << 30u64) | (l2_index(addr) << 21u64) | (
        l1_index(addr) << 12u64) | page_offset(addr) == addr & 0xFFFF_FFFF_FFFFu64,
{
    assert((((addr >> 39u64) & 0x1ff) << 39u64) | (((addr >> 30u64) & 0x1ff) << 30u64) | (((addr
        >> 21u64) & 0x1ff) << 21u64) | (((addr >> 12u64) & 0x1ff) << 12u64) | (addr & 0xfff)
        == addr & 0xFFFF_FFFF_FFFFu64) by (bit_vector);
}


/// Physical page frames that hold page tables, each at its physical address,
/// and the bump allocator that hands out new frames. Frames that the
/// allocator handed out lie at consecutive pages below the next free page;
/// frames loaded from elsewhere (such as the boot tables) lie below it too.
pub struct PageMemory {
    next: u64,
    frames: Vec<(u64, PageTable)>,
}

/// Where an entry lives: the physical address of its table and its index.
#[derive(Clone, Copy, Debug, PartialEq, Eq, Structural)]
pub struct EntryLocation {
    pub table: u64,
    pub index: usize,
}

impl PageMemory {
    /// Number of frames held.
    pub closed spec fn len(self) -> int {
        self.frames@.len() as int
    }

    /// Physical address of frame number `k`.
    pub closed spec fn addr_of(self, k: int) -> u64 {
        self.frames@[k].0
    }

    /// Entry `i` of frame number `k`.
    pub closed spec fn entry(self, k: int, i: int) -> u64 {
        self.frames@[k].1.0@[i].0
    }

    /// The next physical page the allocator hands out.
    pub closed spec fn first_free(self) -> int {
        self.next as int
    }

    /// A frame at physical address `p` is held.
    pub open spec fn holds(self, p: u64) -> bool {
        exists|k: int| 0 <= k < self.len() && #[trigger] self.addr_of(k) == p
    }

    /// Frame number of the held frame at physical address `p`.
    pub open spec fn frame_of(self, p: u64) -> int {
        choose|k: int| 0 <= k < self.len() && #[trigger] self.addr_of(k) == p
    }

    /// Entry `i` of the table at physical address `p`.
    pub open spec fn table_entry(self, p: u64, i: int) -> u64 {
        self.entry(self.frame_of(p), i)
    }

    /// Frames lie at distinct page-aligned addresses below the next free
    /// page, which is page aligned and within the physical address range.
    pub open spec fn wf(self) -> bool {
        &&& self.first_free() % 4096 == 0
        &&& self.first_free() <= PHYS_LIMIT
        &&& forall|k: int|
            0 <= k < self.len() ==> (#[trigger] self.addr_of(k)) % 4096 == 0 && self.addr_of(k)
                < self.first_free()
        &&& forall|k1: int, k2: int|
            0 <= k1 < self.len() && 0 <= k2 < self.len() && k1 != k2 ==> #[trigger] self.addr_of(k1)
                != #[trigger] self.addr_of(k2)
    }

    /// The frames of `self` are those of `old`, at the same addresses, then
    /// fresh frames at the pages from `old`'s next free page on, in order.
    /// Entries of `old` that were present are kept, entries change only at
    /// positions that `allowed` names, and fresh frames hold only zero
    /// entries outside those positions.
    pub open spec fn grows_from(self, old: PageMemory, allowed: spec_fn(int, int) -> bool) -> bool {
        &&& old.len() <= self.len()
        &&& self.first_free() == old.first_free() + 4096 * (self.len() - old.len())
        &&& forall|k: int| 0 <= k < old.len() ==> #[trigger] self.addr_of(k) == old.addr_of(k)
        &&& forall|k: int|
            old.len() <= k < self.len() ==> #[trigger] self.addr_of(k) == old.first_free() + 4096 * (
            k - old.len())
        &&& forall|k: int, i: int|
            0 <= k < old.len() && 0 <= i < 512 && entry_present(#[trigger] old.entry(k, i))
                ==> self.entry(k, i) == old.entry(k, i)
        &&& forall|k: int, i: int|
            0 <= k < old.len() && 0 <= i < 512 && #[trigger] self.entry(k, i) != old.entry(k, i)
                ==> allowed(k, i)
        &&& forall|k: int, i: int|
            old.len() <= k < self.len() && 0 <= i < 512 && #[trigger] self.entry(k, i) != 0
                ==> allowed(k, i)
    }

    /// Every entry of `self` that is new or differs from `old` and is not zero
    /// is a table entry as the walk creates them: `PRESENT | WRITABLE |
    /// USER_ACCESSIBLE` and a frame address, nothing else.
    pub open spec fn added_table_entries(self, old: PageMemory) -> bool {
        forall|k: int, i: int|
            0 <= k < self.len() && 0 <= i < 512 && (k >= old.len() || #[trigger] self.entry(k, i)
                != old.entry(k, i)) && self.entry(k, i) != 0 ==> self.entry(k, i) == table_flags()
                | entry_address(self.entry(k, i))
    }

    pub closed spec fn same(self, other: PageMemory) -> bool {
        self.next == other.next && self.frames@ == other.frames@
    }

    /// The frame number of a held address is the one that holds it.
    pub proof fn lemma_frame_of(self, k: int)
        requires
            self.wf(),
            0 <= k < self.len(),
        ensures
            self.holds(self.addr_of(k)),
            self.frame_of(self.addr_of(k)) == k,
    {
        let p = self.addr_of(k);
        assert(self.holds(p));
        let j = self.frame_of(p);
        assert(0 <= j < self.len() && self.addr_of(j) == p);
    }

    /// A held address is page aligned, below the next free page, and its
    /// frame holds it.
    pub proof fn lemma_held(self, p: u64)
        requires
            self.wf(),
            self.holds(p),
        ensures
            0 <= self.frame_of(p) < self.len(),
            self.addr_of(self.frame_of(p)) == p,
            p % 4096 == 0,
            p < self.first_free(),
    {
        let k = self.frame_of(p);
        assert(0 <= k < self.len() && self.addr_of(k) == p);
    }

    /// No frames; the first page handed out is `FIRST_FREE_PAGE`.
    pub fn new() -> (m: PageMemory)
        ensures
            m.wf(),
            m.first_free() == FIRST_FREE_PAGE,
            m.len() == 0,
    {
        PageMemory { next: FIRST_FREE_PAGE, frames: Vec::new() }
    }

    /// Physical address of the next page the allocator hands out.
    pub fn first_free_page(&self) -> (r: u64)
        ensures
            r == self.first_free(),
    {
        self.next
    }

    fn find_frame(&self, p: u64) -> (r: Option<usize>)
        ensures
            match r {
                Some(k) => k < self.len() && self.addr_of(k as int) == p,
                None => !self.holds(p),
            },
    {
        let mut k: usize = 0;
        while k < self.frames.len()
            invariant
                k <= self.frames@.len(),
                forall|j: int| 0 <= j < k ==> self.addr_of(j) != p,
            decreases self.frames@.len() - k,
        {
            if self.frames[k].0 == p {
                return Some(k);
            }
            k = k + 1;
        }
        None
    }

    /// A frame at physical address `p` is held.
    pub fn holds_frame(&self, p: u64) -> (r: bool)
        ensures
            r == self.holds(p),
    {
        match self.find_frame(p) {
            Some(_) => true,
            None => false,
        }
    }

    /// Reads entry `index` of the table at physical address `table`.
    pub fn read_entry(&self, table: u64, index: usize) -> (e: PageTableEntry)
        requires
            self.wf(),
            self.holds(table),
            index < 512,
        ensures
            e.0 == self.table_entry(table, index as int),
    {
        match self.find_frame(table) {
            Some(k) => {
                proof {
                    self.lemma_frame_of(k as int);
                }
                self.frames[k].1.0[index]
            },
            None => PageTableEntry(0),
        }
    }

    /// Takes in the table that lies at physical address `addr` (a frame the
    /// kernel had before the allocator, such as a boot table).
    pub fn load_frame(&mut self, addr: u64, table: PageTable)
        requires
            old(self).wf(),
            addr % 4096 == 0,
            addr < old(self).first_free(),
            !old(self).holds(addr),
        ensures
            final(self).wf(),
            final(self).len() == old(self).len() + 1,
            final(self).first_free() == old(self).first_free(),
            final(self).addr_of(old(self).len()) == addr,
            forall|i: int| 0 <= i < 512 ==> #[trigger] final(self).entry(old(self).len(), i) == table.0@[i].0,
            forall|k: int| 0 <= k < old(self).len() ==> #[trigger] final(self).addr_of(k) == old(self).addr_of(k),
            forall|k: int, i: int| 0 <= k < old(self).len() && 0 <= i < 512 ==> #[trigger] final(self).entry(k, i) == old(self).entry(k, i),
    {
        let ghost o = *old(self);
        self.frames.push((addr, table));
        proof {
            assert forall|k: int| 0 <= k < o.len() implies #[trigger] self.addr_of(k) == o.addr_of(k)
                by {
                assert(self.frames@[k] == o.frames@[k]);
            }
            assert forall|k: int, i: int| 0 <= k < o.len() && 0 <= i < 512 implies #[trigger] self.entry(
                k,
                i,
            ) == o.entry(k, i) by {
                assert(self.frames@[k] == o.frames@[k]);
            }
            assert forall|k: int|
                0 <= k < self.len() implies (#[trigger] self.addr_of(k)) % 4096 == 0
                && self.addr_of(k) < self.first_free() by {
                if k < o.len() {
                    assert(self.addr_of(k) == o.addr_of(k));
                }
            }
            assert forall|k1: int, k2: int|
                0 <= k1 < self.len() && 0 <= k2 < self.len() && k1 != k2 implies #[trigger] self.addr_of(k1)
                    != #[trigger] self.addr_of(k2) by {
                if k1 < o.len() && k2 < o.len() {
                    assert(self.addr_of(k1) == o.addr_of(k1));
                    assert(self.addr_of(k2) == o.addr_of(k2));
                } else if k1 < o.len() {
                    assert(self.addr_of(k1) == o.addr_of(k1));
                    if o.addr_of(k1) == addr {
                        assert(o.holds(addr));
                    }
                } else {
                    assert(self.addr_of(k2) == o.addr_of(k2));
                    if o.addr_of(k2) == addr {
                        assert(o.holds(addr));
                    }
                }
            }
        }
    }

    /// Hands out `num` zeroed pages in a row and returns the address of the first.
    pub fn alloc_page(&mut self, num: usize) -> (r: u64)
        requires
            old(self).wf(),
            old(self).first_free() + 4096 * num <= PHYS_LIMIT,
        ensures
            final(self).wf(),
            r == old(self).first_free(),
            final(self).len() == old(self).len() + num,
            final(self).first_free() == old(self).first_free() + 4096 * num,
            final(self).grows_from(*old(self), |k: int, i: int| false),
            final(self).added_table_entries(*old(self)),
            forall|k: int, i: int|
                0 <= k < old(self).len() && 0 <= i < 512 ==> #[trigger] final(self).entry(k, i)
                    == old(self).entry(k, i),
            !old(self).holds(r),
            forall|j: int| 0 <= j < num ==> #[trigger] final(self).holds((r + 4096 * j) as u64),
    {
        let r = self.next;
        let ghost old_self = *self;
        let mut n: usize = 0;
        while n < num
            invariant
                n <= num,
                old_self.wf(),
                old_self.first_free() + 4096 * num <= PHYS_LIMIT,
                self.next == old_self.next + 4096 * n,
                self.frames@.len() == old_self.frames@.len() + n,
                forall|k: int| 0 <= k < old_self.frames@.len() ==> #[trigger] self.frames@[k]
                    == old_self.frames@[k],
                forall|k: int|
                    old_self.frames@.len() <= k < self.frames@.len() ==> (#[trigger] self.frames@[k]).0
                        == old_self.next + 4096 * (k - old_self.frames@.len()),
                forall|k: int, i: int|
                    old_self.frames@.len() <= k < self.frames@.len() && 0 <= i < 512
                        ==> (#[trigger] self.frames@[k].1.0@[i]).0 == 0,
            decreases num - n,
        {
            let t = PageTable::new();
            let ghost before = self.frames@;
            let a = self.next;
            self.frames.push((a, t));
            self.next = self.next + 4096;
            n = n + 1;
            proof {
                assert forall|k: int, i: int|
                    old_self.frames@.len() <= k < self.frames@.len() && 0 <= i < 512 implies (
                    #[trigger] self.frames@[k].1.0@[i]).0 == 0 by {
                    if k < before.len() {
                        assert(self.frames@[k] == before[k]);
                    } else {
                        assert(self.frames@[k] == (a, t));
                        assert((t.0@[i]).0 == 0);
                    }
                }
                assert forall|k: int|
                    old_self.frames@.len() <= k < self.frames@.len() implies (
                    #[trigger] self.frames@[k]).0 == old_self.next + 4096 * (k - old_self.frames@.len()) by {
                    if k < before.len() {
                        assert(self.frames@[k] == before[k]);
                    }
                }
            }
        }
        proof {
            let m = old_self.len();
            assert forall|k: int|
                0 <= k < self.len() implies (#[trigger] self.addr_of(k)) % 4096 == 0
                && self.addr_of(k) < self.first_free() by {
                if k < m {
                    assert(self.addr_of(k) == old_self.addr_of(k));
                } else {
                    assert(self.addr_of(k) == old_self.first_free() + 4096 * (k - m));
                    assert((old_self.first_free() + 4096 * (k - m)) % 4096 == 0) by (nonlinear_arith)
                        requires
                            old_self.first_free() % 4096 == 0,
                            k - m >= 0,
                    ;
                }
            }
            assert forall|k1: int, k2: int|
                0 <= k1 < self.len() && 0 <= k2 < self.len() && k1 != k2 implies #[trigger] self.addr_of(k1)
                    != #[trigger] self.addr_of(k2) by {
                if k1 < m && k2 < m {
                    assert(self.addr_of(k1) == old_self.addr_of(k1));
                    assert(self.addr_of(k2) == old_self.addr_of(k2));
                } else if k1 < m {
                    assert(self.addr_of(k1) == old_self.addr_of(k1));
                } else if k2 < m {
                    assert(self.addr_of(k2) == old_self.addr_of(k2));
                }
            }
            assert(self.wf());
            assert forall|j: int| 0 <= j < num implies #[trigger] self.holds((r + 4096 * j) as u64) by {
                assert(self.addr_of(m + j) == old_self.first_free() + 4096 * j);
            }
            assert(!old_self.holds(r)) by {
                if old_self.holds(r) {
                    old_self.lemma_held(r);
                }
            }
        }
        r
    }

    /// Makes entry `index` of the table at `table` present, pointing at a fresh
    /// zeroed page with `PRESENT | WRITABLE | USER_ACCESSIBLE` if it was not
    /// present, and returns the address the entry points at.
    fn ensure_entry(&mut self, table: u64, index: usize) -> (r: u64)
        requires
            old(self).wf(),
            old(self).holds(table),
            index < 512,
            !entry_present(old(self).table_entry(table, index as int)) ==> old(self).first_free()
                + 4096 <= PHYS_LIMIT,
        ensures
            final(self).wf(),
            entry_present(final(self).table_entry(table, index as int)),
            entry_address(final(self).table_entry(table, index as int)) == r,
            entry_present(old(self).table_entry(table, index as int)) ==> final(self).same(
                *old(self),
            ) && r == entry_address(old(self).table_entry(table, index as int)),
            !entry_present(old(self).table_entry(table, index as int)) ==> final(self).table_entry(
                table,
                index as int,
            ) == table_flags() | r && r == old(self).first_free() && final(self).len() == old(
                self,
            ).len() + 1 && final(self).holds(r),
            final(self).grows_from(
                *old(self),
                |k: int, i: int| k == old(self).frame_of(table) && i == index,
            ),
            final(self).added_table_entries(*old(self)),
            forall|p: u64| old(self).holds(p) ==> #[trigger] final(self).holds(p),
    {
        let ghost old_self = *self;
        let k = match self.find_frame(table) {
            Some(k) => k,
            None => {
                return 0;
            },
        };
        proof {
            self.lemma_frame_of(k as int);
        }
        let e = self.frames[k].1.0[index];
        if e.is_present() {
            return e.address();
        }
        let page = self.alloc_page(1);
        proof {
            assert(self.holds((page + 4096 * 0) as u64));
            self.lemma_held(page);
            assert((PRESENT | WRITABLE | USER_ACCESSIBLE) & PRESENT != 0 && (PRESENT | WRITABLE
                | USER_ACCESSIBLE) & ADDRESS == 0) by (bit_vector);
            lemma_set_entry(page, PRESENT | WRITABLE | USER_ACCESSIBLE);
        }
        let (a, mut t) = self.frames[k];
        let mut ne = t.0[index];
        ne.set(page, EntryFlags { bits: PRESENT | WRITABLE | USER_ACCESSIBLE });
        t.0[index] = ne;
        let ghost mid = *self;
        proof {
            assert(mid.addr_of(k as int) == old_self.addr_of(k as int));
            assert(a == mid.addr_of(k as int));
        }
        self.frames.set(k, (a, t));
        proof {
            assert(self.addr_of(k as int) == table);
            assert forall|kk: int| 0 <= kk < self.len() implies #[trigger] self.addr_of(kk)
                == mid.addr_of(kk) by {}
            assert(self.wf());
            self.lemma_frame_of(k as int);
            assert forall|p: u64| old_self.holds(p) implies #[trigger] self.holds(p) by {
                let j = old_self.frame_of(p);
                assert(mid.addr_of(j) == p);
                assert(self.addr_of(j) == p);
            }
            assert(self.holds(page)) by {
                assert(mid.holds(page));
                let j = mid.frame_of(page);
                assert(self.addr_of(j) == page);
            }
            assert forall|kk: int, i: int|
                0 <= kk < self.len() && 0 <= i < 512 && !(kk == k && i == index) implies
                #[trigger] self.entry(kk, i) == mid.entry(kk, i) by {}
            assert forall|kk: int, i: int|
                0 <= kk < old_self.len() && 0 <= i < 512 && entry_present(
                    #[trigger] old_self.entry(kk, i),
                ) implies self.entry(kk, i) == old_self.entry(kk, i) by {
                if !(kk == k && i == index) {
                    assert(self.entry(kk, i) == mid.entry(kk, i));
                }
            }
            assert forall|kk: int, i: int|
                old_self.len() <= kk < self.len() && 0 <= i < 512 && #[trigger] self.entry(kk, i)
                    != 0 implies kk == old_self.frame_of(table) && i == index by {
                assert(self.entry(kk, i) == mid.entry(kk, i));
            }
            assert forall|kk: int, i: int|
                0 <= kk < old_self.len() && 0 <= i < 512 && #[trigger] self.entry(kk, i)
                    != old_self.entry(kk, i) implies kk == old_self.frame_of(table) && i == index by {
                old_self.lemma_frame_of(k as int);
                if !(kk == k && i == index) {
                    assert(self.entry(kk, i) == mid.entry(kk, i));
                }
            }
            assert((PRESENT | WRITABLE | USER_ACCESSIBLE) | (page & ADDRESS) == table_flags() | (((
            PRESENT | WRITABLE | USER_ACCESSIBLE) | (page & ADDRESS)) & ADDRESS)) by (bit_vector);
            assert forall|kk: int, i: int|
                0 <= kk < self.len() && 0 <= i < 512 && (kk >= old_self.len() || #[trigger] self.entry(
                    kk,
                    i,
                ) != old_self.entry(kk, i)) && self.entry(kk, i) != 0 implies self.entry(kk, i)
                == table_flags() | entry_address(self.entry(kk, i)) by {
                if kk == k && i == index {
                } else {
                    assert(self.entry(kk, i) == mid.entry(kk, i));
                }
            }
            old_self.lemma_frame_of(k as int);
            assert(self.table_entry(table, index as int) == ne.0);
        }
        page
    }
}

/// The entry that the walk for `addr` meets at level `lv`: 0 is the root
/// entry, 1 the level-3 entry, 2 the level-2 entry, 3 the level-1 entry.
pub open spec fn walk_entry(root: PageTable, mem: PageMemory, addr: u64, lv: int) -> u64 {
    let e4 = root.0@[l4_index(addr) as int].0;
    let e3 = mem.table_entry(entry_address(e4), l3_index(addr) as int);
    let e2 = mem.table_entry(entry_address(e3), l2_index(addr) as int);
    let e1 = mem.table_entry(entry_address(e2), l1_index(addr) as int);
    if lv == 0 {
        e4
    } else if lv == 1 {
        e3
    } else if lv == 2 {
        e2
    } else {
        e1
    }
}

/// The walk for `addr` from `root` meets a present entry at every level, and
/// each table on the way is a held frame.
pub open spec fn walk_present(root: PageTable, mem: PageMemory, addr: u64) -> bool {
    &&& entry_present(walk_entry(root, mem, addr, 0))
    &&& mem.holds(entry_address(walk_entry(root, mem, addr, 0)))
    &&& entry_present(walk_entry(root, mem, addr, 1))
    &&& mem.holds(entry_address(walk_entry(root, mem, addr, 1)))
    &&& entry_present(walk_entry(root, mem, addr, 2))
    &&& mem.holds(entry_address(walk_entry(root, mem, addr, 2)))
    &&& entry_present(walk_entry(root, mem, addr, 3))
}

/// Every table that the present part of the walk for `addr` leads to is a
/// held frame, so the walk can read it.
pub open spec fn walk_tables_held(root: PageTable, mem: PageMemory, addr: u64) -> bool {
    let e4 = walk_entry(root, mem, addr, 0);
    let e3 = walk_entry(root, mem, addr, 1);
    let e2 = walk_entry(root, mem, addr, 2);
    &&& entry_present(e4) ==> mem.holds(entry_address(e4))
    &&& entry_present(e4) && entry_present(e3) ==> mem.holds(entry_address(e3))
    &&& entry_present(e4) && entry_present(e3) && entry_present(e2) ==> mem.holds(
        entry_address(e2),
    )
}

/// The first table on the walk for `addr` that is not held.
pub open spec fn first_unheld(root: PageTable, mem: PageMemory, addr: u64) -> u64 {
    let e4 = walk_entry(root, mem, addr, 0);
    let e3 = walk_entry(root, mem, addr, 1);
    let e2 = walk_entry(root, mem, addr, 2);
    if entry_present(e4) && !mem.holds(entry_address(e4)) {
        entry_address(e4)
    } else if entry_present(e4) && entry_present(e3) && !mem.holds(entry_address(e3)) {
        entry_address(e3)
    } else {
        entry_address(e2)
    }
}

/// Physical address of the level-1 table that the walk for `addr` reaches.
pub open spec fn walk_l1_table(root: PageTable, mem: PageMemory, addr: u64) -> u64 {
    entry_address(walk_entry(root, mem, addr, 2))
}

/// Frame positions (frame number, index) of the three table entries that the
/// walk for `addr` passes below the root.
pub open spec fn on_walk(root: PageTable, mem: PageMemory, addr: u64, k: int, i: int) -> bool {
    let t3 = entry_address(walk_entry(root, mem, addr, 0));
    let t2 = entry_address(walk_entry(root, mem, addr, 1));
    let t1 = entry_address(walk_entry(root, mem, addr, 2));
    ||| k == mem.frame_of(t3) && i == l3_index(addr)
    ||| k == mem.frame_of(t2) && i == l2_index(addr)
    ||| k == mem.frame_of(t1) && i == l1_index(addr)
}

/// How many levels of the walk for `addr`, from the root down, are already
/// present (0 to 4).
pub open spec fn present_levels(root: PageTable, mem: PageMemory, addr: u64) -> int {
    if !entry_present(walk_entry(root, mem, addr, 0)) {
        0
    } else if !entry_present(walk_entry(root, mem, addr, 1)) {
        1
    } else if !entry_present(walk_entry(root, mem, addr, 2)) {
        2
    } else if !entry_present(walk_entry(root, mem, addr, 3)) {
        3
    } else {
        4
    }
}

/// The page that filling the walk for `addr` gives level `lv`, when that
/// level is missing: missing levels take the next free pages in order,
/// from the first missing level down.
pub open spec fn fresh_page(root: PageTable, mem: PageMemory, addr: u64, lv: int) -> u64 {
    (mem.first_free() + 4096 * (lv - present_levels(root, mem, addr))) as u64
}

/// The pages that filling the walk for `addr` takes from the allocator.
pub open spec fn pages_needed(root: PageTable, mem: PageMemory, addr: u64) -> int {
    4096 * (4 - present_levels(root, mem, addr))
}

/// The index that the walk for `addr` uses in the table of level `lv`.
pub open spec fn walk_index(addr: u64, lv: int) -> int {
    if lv == 0 {
        l4_index(addr) as int
    } else if lv == 1 {
        l3_index(addr) as int
    } else if lv == 2 {
        l2_index(addr) as int
    } else {
        l1_index(addr) as int
    }
}

/// Every page that filling the walk took holds only zero entries, but for
/// the one entry through which the walk goes on to the next level.
pub open spec fn fresh_pages_zeroed(old_root: PageTable, old_mem: PageMemory, mem: PageMemory, addr: u64) -> bool {
    forall|lv: int, i: int|
        present_levels(old_root, old_mem, addr) <= lv < 4 && 0 <= i < 512 && !(lv < 3 && i
            == walk_index(addr, lv + 1)) ==> #[trigger] mem.table_entry(
            fresh_page(old_root, old_mem, addr, lv),
            i,
        ) == 0
}

/// What filling the walk for `addr` did, from `r0`/`m0` to `r1`/`m1`: the
/// walk is present; levels present before keep their entries; each missing
/// level got the next free page, zeroed, with `PRESENT | WRITABLE |
/// USER_ACCESSIBLE`; nothing else changed but the entries on the walk; a
/// walk that was present changed nothing.
pub open spec fn walk_filled(r0: PageTable, m0: PageMemory, r1: PageTable, m1: PageMemory, a: u64) -> bool {
    &&& m1.wf()
    &&& walk_present(r1, m1, a)
    &&& forall|i: int| 0 <= i < 512 && i != l4_index(a) ==> #[trigger] r1.0@[i] == r0.0@[i]
    &&& forall|lv: int|
        0 <= lv < present_levels(r0, m0, a) ==> #[trigger] walk_entry(r1, m1, a, lv) == walk_entry(
            r0,
            m0,
            a,
            lv,
        )
    &&& forall|lv: int|
        present_levels(r0, m0, a) <= lv < 4 ==> #[trigger] walk_entry(r1, m1, a, lv)
            == table_flags() | fresh_page(r0, m0, a, lv)
    &&& fresh_pages_zeroed(r0, m0, m1, a)
    &&& m1.grows_from(m0, |k: int, i: int| on_walk(r1, m1, a, k, i))
    &&& m1.added_table_entries(m0)
    &&& m1.first_free() == m0.first_free() + pages_needed(r0, m0, a)
    &&& walk_present(r0, m0, a) ==> r1.0@ == r0.0@ && m1.same(m0)
}

/// Entries added in two steps are entries added by one of them.
proof fn lemma_added_trans(m0: PageMemory, m1: PageMemory, m2: PageMemory)
    requires
        m1.added_table_entries(m0),
        m2.added_table_entries(m1),
        m0.len() <= m1.len() <= m2.len(),
    ensures
        m2.added_table_entries(m0),
{
    assert forall|k: int, i: int|
        0 <= k < m2.len() && 0 <= i < 512 && (k >= m0.len() || #[trigger] m2.entry(k, i) != m0.entry(
            k,
            i,
        )) && m2.entry(k, i) != 0 implies m2.entry(k, i) == table_flags() | entry_address(
        m2.entry(k, i),
    ) by {
        if k >= m1.len() || m2.entry(k, i) != m1.entry(k, i) {
        } else {
            assert(m1.entry(k, i) != 0);
            assert(k >= m0.len() || m1.entry(k, i) != m0.entry(k, i));
        }
    }
}

/// Growth composes: what two steps may change is what either step may change.
proof fn lemma_grows_trans(
    m0: PageMemory,
    m1: PageMemory,
    m2: PageMemory,
    a: spec_fn(int, int) -> bool,
    b: spec_fn(int, int) -> bool,
    c: spec_fn(int, int) -> bool,
)
    requires
        m1.grows_from(m0, a),
        m2.grows_from(m1, b),
        forall|k: int, i: int| a(k, i) || b(k, i) ==> #[trigger] c(k, i),
    ensures
        m2.grows_from(m0, c),
{
    assert forall|k: int| 0 <= k < m0.len() implies #[trigger] m2.addr_of(k) == m0.addr_of(k) by {
        assert(m1.addr_of(k) == m0.addr_of(k));
    }
    assert forall|k: int| m0.len() <= k < m2.len() implies #[trigger] m2.addr_of(k)
        == m0.first_free() + 4096 * (k - m0.len()) by {
        if k < m1.len() {
            assert(m1.addr_of(k) == m0.first_free() + 4096 * (k - m0.len()));
        } else {
            assert(m2.addr_of(k) == m1.first_free() + 4096 * (k - m1.len()));
        }
    }
    assert forall|k: int, i: int|
        0 <= k < m0.len() && 0 <= i < 512 && entry_present(#[trigger] m0.entry(k, i)) implies m2.entry(
        k,
        i,
    ) == m0.entry(k, i) by {
        assert(m1.entry(k, i) == m0.entry(k, i));
    }
    assert forall|k: int, i: int|
        0 <= k < m0.len() && 0 <= i < 512 && #[trigger] m2.entry(k, i) != m0.entry(k, i) implies c(
        k,
        i,
    ) by {
        if m1.entry(k, i) != m0.entry(k, i) {
            assert(a(k, i));
        } else {
            assert(b(k, i));
        }
    }
    assert forall|k: int, i: int|
        m0.len() <= k < m2.len() && 0 <= i < 512 && #[trigger] m2.entry(k, i) != 0 implies c(
        k,
        i,
    ) by {
        if k < m1.len() {
            if m1.entry(k, i) != 0 {
                assert(a(k, i));
            } else {
                assert(b(k, i));
            }
        } else {
            assert(b(k, i));
        }
    }
}

/// An entry of a frame that was allocated after `old` and that the growth
/// was not allowed to touch is absent.
proof fn lemma_fresh_entry_absent(
    old: PageMemory,
    new: PageMemory,
    allowed: spec_fn(int, int) -> bool,
    p: u64,
    i: int,
)
    requires
        new.wf(),
        new.grows_from(old, allowed),
        p == old.first_free(),
        old.len() < new.len(),
        0 <= i < 512,
        forall|k: int, j: int| #[trigger] allowed(k, j) ==> k < old.len(),
    ensures
        !entry_present(new.table_entry(p, i)),
{
    assert(new.addr_of(old.len()) == old.first_free() + 4096 * (old.len() - old.len()));
    new.lemma_frame_of(old.len());
    assert(new.frame_of(p) == old.len());
    assert(new.entry(old.len(), i) == 0) by {
        if new.entry(old.len(), i) != 0 {
            assert(allowed(old.len(), i));
        }
    }
    assert(0u64 & PRESENT == 0) by (bit_vector);
}

/// The pages a walk filled hold zeros outside the walk: they are new frames,
/// and the frames changed only at positions on the walk.
proof fn lemma_fresh_pages_zeroed(r0: PageTable, m0: PageMemory, r1: PageTable, m1: PageMemory, a: u64)
    requires
        m0.wf(),
        m1.wf(),
        walk_tables_held(r0, m0, a),
        m0.first_free() + pages_needed(r0, m0, a) <= PHYS_LIMIT,
        m1.grows_from(m0, |k: int, i: int| on_walk(r1, m1, a, k, i)),
        m1.first_free() == m0.first_free() + pages_needed(r0, m0, a),
        forall|lv: int|
            0 <= lv < present_levels(r0, m0, a) ==> #[trigger] walk_entry(r1, m1, a, lv)
                == walk_entry(r0, m0, a, lv),
        forall|lv: int|
            present_levels(r0, m0, a) <= lv < 4 ==> #[trigger] walk_entry(r1, m1, a, lv)
                == table_flags() | fresh_page(r0, m0, a, lv),
    ensures
        fresh_pages_zeroed(r0, m0, m1, a),
{
    let pl = present_levels(r0, m0, a);
    let f = m0.first_free();
    let n = m0.len();
    assert(m1.len() == n + 4 - pl);
    // the table each level of the final walk points at
    assert forall|j: int| 0 <= j < 3 implies ({
        let t = entry_address(#[trigger] walk_entry(r1, m1, a, j));
        &&& j < pl ==> m1.frame_of(t) < n
        &&& j >= pl ==> m1.frame_of(t) == n + j - pl
    }) by {
        let t = entry_address(walk_entry(r1, m1, a, j));
        if j < pl {
            assert(walk_entry(r1, m1, a, j) == walk_entry(r0, m0, a, j));
            assert(m0.holds(t));
            m0.lemma_held(t);
            let k = m0.frame_of(t);
            assert(m1.addr_of(k) == t);
            m1.lemma_frame_of(k);
        } else {
            let p = fresh_page(r0, m0, a, j);
            assert(p == f + 4096 * (j - pl) && p % 4096 == 0 && p < PHYS_LIMIT) by (nonlinear_arith)
                requires
                    p == f + 4096 * (j - pl),
                    f % 4096 == 0,
                    0 <= j - pl < 4 - pl,
                    f + 4096 * (4 - pl) <= PHYS_LIMIT,
            ;
            assert(table_flags() & PRESENT != 0 && table_flags() & ADDRESS == 0) by (bit_vector);
            lemma_set_entry(p, table_flags());
            assert(m1.addr_of(n + j - pl) == f + 4096 * (n + j - pl - n));
            m1.lemma_frame_of(n + j - pl);
        }
    }
    assert forall|lv: int, i: int|
        pl <= lv < 4 && 0 <= i < 512 && !(lv < 3 && i == walk_index(a, lv + 1)) implies
        #[trigger] m1.table_entry(fresh_page(r0, m0, a, lv), i) == 0 by {
        let k = n + lv - pl;
        assert(m1.addr_of(k) == f + 4096 * (k - n));
        m1.lemma_frame_of(k);
        assert(m1.frame_of(fresh_page(r0, m0, a, lv)) == k);
        if m1.entry(k, i) != 0 {
            assert(on_walk(r1, m1, a, k, i));
            let e0 = walk_entry(r1, m1, a, 0);
            let e1 = walk_entry(r1, m1, a, 1);
            let e2 = walk_entry(r1, m1, a, 2);
            assert(false);
        }
    }
}

impl PageTable {
    /// Bytes of pages that walking to `addr` takes from `mem`, one page for
    /// every missing level; or the first table on the walk that `mem` does
    /// not hold.
    pub fn walk_pages_needed(&self, mem: &PageMemory, addr: u64) -> (r: Result<u64, u64>)
        requires
            mem.wf(),
        ensures
            r is Ok <==> walk_tables_held(*self, *mem, addr),
            r is Ok ==> r->Ok_0 == pages_needed(*self, *mem, addr),
            r is Err ==> r->Err_0 == first_unheld(*self, *mem, addr),
    {
        let pages = Self::address_to_tables(addr);
        let e4 = self.0[pages.0];
        if !e4.is_present() {
            return Ok(4 * 4096);
        }
        if !mem.holds_frame(e4.address()) {
            return Err(e4.address());
        }
        let e3 = mem.read_entry(e4.address(), pages.1);
        if !e3.is_present() {
            return Ok(3 * 4096);
        }
        if !mem.holds_frame(e3.address()) {
            return Err(e3.address());
        }
        let e2 = mem.read_entry(e3.address(), pages.2);
        if !e2.is_present() {
            return Ok(2 * 4096);
        }
        if !mem.holds_frame(e2.address()) {
            return Err(e2.address());
        }
        let e1 = mem.read_entry(e2.address(), pages.3);
        if !e1.is_present() {
            return Ok(4096);
        }
        Ok(0)
    }

    /// Walks the four levels for `addr`, creating every missing table (and the
    /// final page) from `mem`, and returns where the level-1 entry for `addr`
    /// lives. Each missing level gets the next free page, zeroed, with
    /// `PRESENT | WRITABLE | USER_ACCESSIBLE`. When a table on the walk is not
    /// among the frames `mem` holds, nothing changes and its address comes
    /// back as the error: the caller loads that frame and walks again.
    pub fn create_or_get_entry(&mut self, mem: &mut PageMemory, addr: usize) -> (r: Result<
        EntryLocation,
        u64,
    >)
        requires
            old(mem).wf(),
            walk_tables_held(*old(self), *old(mem), addr as u64) ==> old(mem).first_free()
                + pages_needed(*old(self), *old(mem), addr as u64) <= PHYS_LIMIT,
        ensures
            r is Ok <==> walk_tables_held(*old(self), *old(mem), addr as u64),
            r is Err ==> r->Err_0 == first_unheld(*old(self), *old(mem), addr as u64)
                && *final(self) == *old(self) && final(mem).same(*old(mem)),
            r is Ok ==> walk_filled(*old(self), *old(mem), *final(self), *final(mem), addr as u64)
                && r->Ok_0.table == walk_l1_table(*final(self), *final(mem), addr as u64)
                && r->Ok_0.index == l1_index(addr as u64),
    {
        self.walk_to_entry(mem, addr as u64)
    }

    fn walk_to_entry(&mut self, mem: &mut PageMemory, a: u64) -> (r: Result<EntryLocation, u64>)
        requires
            old(mem).wf(),
            walk_tables_held(*old(self), *old(mem), a) ==> old(mem).first_free() + pages_needed(
                *old(self),
                *old(mem),
                a,
            ) <= PHYS_LIMIT,
        ensures
            r is Ok <==> walk_tables_held(*old(self), *old(mem), a),
            r is Err ==> r->Err_0 == first_unheld(*old(self), *old(mem), a) && *final(self)
                == *old(self) && final(mem).same(*old(mem)),
            r is Ok ==> walk_filled(*old(self), *old(mem), *final(self), *final(mem), a)
                && r->Ok_0.table == walk_l1_table(*final(self), *final(mem), a) && r->Ok_0.index
                == l1_index(a),
    {
        let ghost m0 = *mem;
        let ghost r0 = *self;
        let ghost pl = present_levels(r0, m0, a);
        proof {
            assert(l4_index(a) < 512 && l3_index(a) < 512 && l2_index(a) < 512 && l1_index(a)
                < 512) by (bit_vector);
        }
        let pages = Self::address_to_tables(a);
        let i4 = pages.0;
        let e4 = self.0[i4];
        // every table the present part of the walk leads to must be held
        if e4.is_present() {
            if !mem.holds_frame(e4.address()) {
                proof {
                    assert(mem.same(m0));
                }
                return Err(e4.address());
            }
            let e3 = mem.read_entry(e4.address(), pages.1);
            if e3.is_present() {
                if !mem.holds_frame(e3.address()) {
                    proof {
                        assert(mem.same(m0));
                    }
                    return Err(e3.address());
                }
                let e2 = mem.read_entry(e3.address(), pages.2);
                if e2.is_present() && !mem.holds_frame(e2.address()) {
                    proof {
                        assert(mem.same(m0));
                    }
                    return Err(e2.address());
                }
            }
        }
        assert(walk_tables_held(r0, m0, a));
        let t3 = if e4.is_present() {
            e4.address()
        } else {
            let page = mem.alloc_page(1);
            proof {
                assert(mem.holds((page + 4096 * 0) as u64));
                mem.lemma_held(page);
                assert((PRESENT | WRITABLE | USER_ACCESSIBLE) & PRESENT != 0 && (PRESENT
                    | WRITABLE | USER_ACCESSIBLE) & ADDRESS == 0) by (bit_vector);
                lemma_set_entry(page, PRESENT | WRITABLE | USER_ACCESSIBLE);
            }
            let mut ne = e4;
            ne.set(page, EntryFlags { bits: PRESENT | WRITABLE | USER_ACCESSIBLE });
            assert(ne.0 == table_flags() | page);
            self.0[i4] = ne;
            page
        };
        let ghost m1 = *mem;
        let ghost f = |k: int, i: int| false;
        let ghost n3 = |k: int, i: int| k == m1.frame_of(t3) && i == l3_index(a);
        proof {
            if entry_present(e4.0) {
                assert(m1 == m0);
                assert(m1.grows_from(m0, |k: int, i: int| false));
                assert(m1.added_table_entries(m0));
            } else {
                assert(pl == 0);
                lemma_fresh_entry_absent(m0, m1, f, t3, l3_index(a) as int);
            }
            assert(m1.holds(t3));
            m1.lemma_held(t3);
        }
        let t2 = mem.ensure_entry(t3, pages.1);
        let ghost m2 = *mem;
        let ghost n2 = |k: int, i: int| k == m2.frame_of(t2) && i == l2_index(a);
        proof {
            if !entry_present(m1.table_entry(t3, l3_index(a) as int)) {
                lemma_fresh_entry_absent(m1, m2, n3, t2, l2_index(a) as int);
            } else {
                assert(m2.same(m1));
                assert(entry_present(e4.0));
                assert(m0.holds(t2));
            }
            assert(m2.holds(t2));
            m2.lemma_held(t2);
        }
        let t1 = mem.ensure_entry(t2, pages.2);
        let ghost m3 = *mem;
        let ghost n1 = |k: int, i: int| k == m3.frame_of(t1) && i == l1_index(a);
        proof {
            if !entry_present(m2.table_entry(t2, l2_index(a) as int)) {
                lemma_fresh_entry_absent(m2, m3, n2, t1, l1_index(a) as int);
            } else {
                assert(m3.same(m2));
                assert(entry_present(e4.0));
                assert(entry_present(m1.table_entry(t3, l3_index(a) as int)));
                assert(m0.holds(t1));
            }
            assert(m3.holds(t1));
            m3.lemma_held(t1);
        }
        let t0 = mem.ensure_entry(t1, pages.3);
        let ghost m4 = *mem;
        proof {
            if entry_present(m3.table_entry(t1, l1_index(a) as int)) {
                assert(m4.same(m3));
            }
            let k3 = m1.frame_of(t3);
            let k2 = m2.frame_of(t2);
            let k1 = m3.frame_of(t1);
            m4.lemma_frame_of(k3);
            m4.lemma_frame_of(k2);
            m4.lemma_frame_of(k1);
            m3.lemma_frame_of(k3);
            m3.lemma_frame_of(k2);
            // the entries set on the way stay put
            assert(m3.entry(k3, l3_index(a) as int) == m2.entry(k3, l3_index(a) as int));
            assert(m4.entry(k3, l3_index(a) as int) == m3.entry(k3, l3_index(a) as int));
            assert(m4.entry(k2, l2_index(a) as int) == m3.entry(k2, l2_index(a) as int));
            assert(entry_address(self.0@[l4_index(a) as int].0) == t3);
            assert(walk_entry(*self, m4, a, 1) == m2.table_entry(t3, l3_index(a) as int));
            assert(walk_entry(*self, m4, a, 2) == m3.table_entry(t2, l2_index(a) as int));
            assert(walk_entry(*self, m4, a, 3) == m4.table_entry(t1, l1_index(a) as int));
            assert(walk_present(*self, m4, a));
            let walk = |k: int, i: int| on_walk(*self, m4, a, k, i);
            let s2 = |k: int, i: int| k == m1.frame_of(t3) && i == pages.1;
            let s3 = |k: int, i: int| k == m2.frame_of(t2) && i == pages.2;
            let s4 = |k: int, i: int| k == m3.frame_of(t1) && i == pages.3;
            let s23 = |k: int, i: int| s2(k, i) || s3(k, i);
            lemma_grows_trans(m0, m1, m2, f, s2, s2);
            lemma_grows_trans(m0, m2, m3, s2, s3, s23);
            lemma_grows_trans(m0, m3, m4, s23, s4, walk);
            lemma_added_trans(m0, m1, m2);
            lemma_added_trans(m0, m2, m3);
            lemma_added_trans(m0, m3, m4);
            if walk_present(r0, m0, a) {
                assert(self.0@ == r0.0@);
            }
            // what each level holds now, by how many were present
            assert forall|lv: int|
                0 <= lv < pl implies #[trigger] walk_entry(*self, m4, a, lv) == walk_entry(
                    r0,
                    m0,
                    a,
                    lv,
                ) by {}
            assert forall|lv: int|
                pl <= lv < 4 implies #[trigger] walk_entry(*self, m4, a, lv) == table_flags()
                | fresh_page(r0, m0, a, lv) by {}
            lemma_fresh_pages_zeroed(r0, m0, *self, m4, a);
        }
        Ok(EntryLocation { table: t1, index: pages.3 })
    }
}

/// Page-fault handling: makes the walk for the faulting address `fault_addr`
/// present in the process table `table`, filling each missing level with the
/// next free page, zeroed. When a table on the walk is not among the frames
/// `mem` holds, nothing changes and its address comes back as the error: the
/// kernel loads that frame and handles the fault again.
pub fn handle_page_fault(table: &mut PageTable, mem: &mut PageMemory, fault_addr: u64) -> (r: Result<
    (),
    u64,
>)
    requires
        old(mem).wf(),
        walk_tables_held(*old(table), *old(mem), fault_addr) ==> old(mem).first_free()
            + pages_needed(*old(table), *old(mem), fault_addr) <= PHYS_LIMIT,
    ensures
        r is Ok <==> walk_tables_held(*old(table), *old(mem), fault_addr),
        r is Err ==> r->Err_0 == first_unheld(*old(table), *old(mem), fault_addr) && *final(table)
            == *old(table) && final(mem).same(*old(mem)),
        r is Ok ==> walk_filled(*old(table), *old(mem), *final(table), *final(mem), fault_addr),
{
    match table.walk_to_entry(mem, fault_addr) {
        Ok(_) => Ok(()),
        Err(p) => Err(p),
    }
}

/// Index of the root entry that maps the kernel's upper half.
pub const KERNEL_ENTRY: usize = 511;

/// Shares the kernel half with a process table: its last root entry becomes
/// that of the boot table `p4_table`.
pub fn init(proc_table: &mut PageTable, p4_table: &PageTable)
    ensures
        final(proc_table).0@ == old(proc_table).0@.update(KERNEL_ENTRY as int, p4_table.0@[KERNEL_ENTRY as int]),
{
    proc_table.copy_entry_from(p4_table, KERNEL_ENTRY);
}

/// A walk that is present needs no page: a second `create_or_get_entry` or
/// `handle_page_fault` for the same address is always allowed, succeeds, and
/// by their contracts allocates nothing, changes no entry and returns the
/// same location.
pub proof fn lemma_walk_again(root: PageTable, mem: PageMemory, addr: u64)
    requires
        mem.wf(),
        walk_present(root, mem, addr),
    ensures
        present_levels(root, mem, addr) == 4,
        pages_needed(root, mem, addr) == 0,
        walk_tables_held(root, mem, addr),
        mem.first_free() + pages_needed(root, mem, addr) <= PHYS_LIMIT,
{
}

/// Growing the tables never breaks a walk: if the walk for `other` was
/// present before, and the root and the frames only changed where entries
/// were absent, the same walk is present afterwards and reaches the same
/// level-1 table. So creating the entry for one address keeps every mapping
/// made before.
pub proof fn lemma_walk_preserved(
    root0: PageTable,
    mem0: PageMemory,
    root1: PageTable,
    mem1: PageMemory,
    allowed: spec_fn(int, int) -> bool,
    other: u64,
)
    requires
        mem0.wf(),
        mem1.wf(),
        mem1.grows_from(mem0, allowed),
        forall|i: int|
            0 <= i < 512 && entry_present(#[trigger] root0.0@[i].0) ==> root1.0@[i] == root0.0@[i],
        walk_present(root0, mem0, other),
    ensures
        walk_present(root1, mem1, other),
        walk_l1_table(root1, mem1, other) == walk_l1_table(root0, mem0, other),
{
    let i4 = l4_index(other) as int;
    assert(l4_index(other) < 512 && l3_index(other) < 512 && l2_index(other) < 512 && l1_index(
        other,
    ) < 512) by (bit_vector);
    assert(root1.0@[i4] == root0.0@[i4]);
    let t3 = entry_address(walk_entry(root0, mem0, other, 0));
    let t2 = entry_address(walk_entry(root0, mem0, other, 1));
    let t1 = entry_address(walk_entry(root0, mem0, other, 2));
    mem0.lemma_held(t3);
    mem0.lemma_held(t2);
    mem0.lemma_held(t1);
    let k3 = mem0.frame_of(t3);
    let k2 = mem0.frame_of(t2);
    let k1 = mem0.frame_of(t1);
    assert(mem1.addr_of(k3) == t3);
    assert(mem1.addr_of(k2) == t2);
    assert(mem1.addr_of(k1) == t1);
    mem1.lemma_frame_of(k3);
    mem1.lemma_frame_of(k2);
    mem1.lemma_frame_of(k1);
    assert(mem1.entry(k3, l3_index(other) as int) == mem0.entry(k3, l3_index(other) as int));
    assert(mem1.entry(k2, l2_index(other) as int) == mem0.entry(k2, l2_index(other) as int));
    assert(mem1.entry(k1, l1_index(other) as int) == mem0.entry(k1, l1_index(other) as int));
}

} // verus!
