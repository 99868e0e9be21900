//! Reading the ELF file header, the program and section headers from the
//! bytes of an image, and planning how its segments are loaded.
use vstd::prelude::*;
use super::ElfHeader;

verus! {

/// Little-endian value of the 2 bytes at `o`.
pub open spec fn le16(s: Seq<u8>, o: int) -> int {
    s[o] + 0x100 * s[o + 1]
}

/// Little-endian value of the 4 bytes at `o`.
pub open spec fn le32(s: Seq<u8>, o: int) -> int {
    le16(s, o) + 0x1_0000 * le16(s, o + 2)
}

/// Little-endian value of the 8 bytes at `o`.
pub open spec fn le64(s: Seq<u8>, o: int) -> int {
    le32(s, o) + 0x1_0000_0000 * le32(s, o + 4)
}

fn read_u16(s: &[u8], o: usize) -> (r: u16)
    requires
        o + 2 <= s@.len(),
    ensures
        r == le16(s@, o as int),
{
    s[o] as u16 + 0x100 * (s[o + 1] as u16)
}

fn read_u32(s: &[u8], o: usize) -> (r: u32)
    requires
        o + 4 <= s@.len(),
    ensures
        r == le32(s@, o as int),
{
    let _n = s.len();
    read_u16(s, o) as u32 + 0x1_0000 * (read_u16(s, o + 2) as u32)
}

fn read_u64(s: &[u8], o: usize) -> (r: u64)
    requires
        o + 8 <= s@.len(),
    ensures
        r == le64(s@, o as int),
{
    let _n = s.len();
    read_u32(s, o) as u64 + 0x1_0000_0000 * (read_u32(s, o + 4) as u64)
}

/// Size of the file header.
pub const ELF_HEADER_SIZE: usize = 64;
/// Size of one program header.
pub const PROGRAM_HEADER_SIZE: usize = 56;
/// Size of one section header.
pub const SECTION_HEADER_SIZE: usize = 64;

pub const PT_LOAD: u32 = 1;
pub const PT_DYNAMIC: u32 = 2;
pub const PT_GNU_STACK: u32 = 0x6474e551;
pub const PT_GNU_RELRO: u32 = 0x6474e552;
pub const PT_GNU_EH_FRAME: u32 = 0x6474e550;

/// Start and length of the area the loader zeroes after the segments.
pub const BSS_START: u64 = 0x601140;
pub const BSS_LEN: u64 = 0x1128;

/// One program header: how a segment of the file is placed in memory.
#[derive(Clone, Copy, Debug, PartialEq, Eq, Structural)]
pub struct ElfProgramHeader {
    pub p_type: u32,
    pub flags: u32,
    pub offset: u64,
    pub virtual_address: u64,
    pub physical_address: u64,
    pub file_size: u64,
    pub memory_size: u64,
    pub align: u64,
}

/// One section header.
#[derive(Clone, Copy, Debug, PartialEq, Eq, Structural)]
pub struct ElfSectionHeader {
    pub name: u32,
    pub sh_type: u32,
    pub flags: u64,
    pub addr: u64,
    pub offset: u64,
    pub size: u64,
    pub link: u32,
    pub info: u32,
    pub align: u64,
    pub entry_size: u64,
}

/// The file header that the 64 bytes at the start of `s` encode.
pub open spec fn decoded_header(h: ElfHeader, s: Seq<u8>) -> bool {
    &&& h.ident_magic@ == s.subrange(0, 4)
    &&& h.ident_class == s[4]
    &&& h.ident_data == s[5]
    &&& h.ident_version == s[6]
    &&& h.ident_osabi == s[7]
    &&& h.ident_abiversion == s[8]
    &&& h.ident_padding@ == s.subrange(9, 16)
    &&& h.elf_type == le16(s, 16)
    &&& h.machine == le16(s, 18)
    &&& h.version == le32(s, 20)
    &&& h.entry == le64(s, 24)
    &&& h.program_header_offset == le64(s, 32)
    &&& h.section_header_offset == le64(s, 40)
    &&& h.flags == le32(s, 48)
    &&& h.header_size == le16(s, 52)
    &&& h.program_header_size == le16(s, 54)
    &&& h.program_header_number_of_entries == le16(s, 56)
    &&& h.section_header_size == le16(s, 58)
    &&& h.section_header_number_of_entries == le16(s, 60)
    &&& h.section_header_names_index == le16(s, 62)
}

/// The program header that the 56 bytes at `o` encode.
pub open spec fn decoded_program_header(s: Seq<u8>, o: int) -> ElfProgramHeader {
    ElfProgramHeader {
        p_type: le32(s, o) as u32,
        flags: le32(s, o + 4) as u32,
        offset: le64(s, o + 8) as u64,
        virtual_address: le64(s, o + 16) as u64,
        physical_address: le64(s, o + 24) as u64,
        file_size: le64(s, o + 32) as u64,
        memory_size: le64(s, o + 40) as u64,
        align: le64(s, o + 48) as u64,
    }
}

/// The section header that the 64 bytes at `o` encode.
pub open spec fn decoded_section_header(s: Seq<u8>, o: int) -> ElfSectionHeader {
    ElfSectionHeader {
        name: le32(s, o) as u32,
        sh_type: le32(s, o + 4) as u32,
        flags: le64(s, o + 8) as u64,
        addr: le64(s, o + 16) as u64,
        offset: le64(s, o + 24) as u64,
        size: le64(s, o + 32) as u64,
        link: le32(s, o + 40) as u32,
        info: le32(s, o + 44) as u32,
        align: le64(s, o + 48) as u64,
        entry_size: le64(s, o + 56) as u64,
    }
}

impl ElfHeader {
    /// Reads the file header at the start of an ELF image.
    pub fn load(image: &[u8]) -> (h: ElfHeader)
        requires
            image@.len() >= ELF_HEADER_SIZE,
        ensures
            decoded_header(h, image@),
    {
        let magic: [u8; 4] = [image[0], image[1], image[2], image[3]];
        let padding: [u8; 7] = [
            image[9],
            image[10],
            image[11],
            image[12],
            image[13],
            image[14],
            image[15],
        ];
        let h = ElfHeader {
            ident_magic: magic,
            ident_class: image[4],
            ident_data: image[5],
            ident_version: image[6],
            ident_osabi: image[7],
            ident_abiversion: image[8],
            ident_padding: padding,
            elf_type: read_u16(image, 16),
            machine: read_u16(image, 18),
            version: read_u32(image, 20),
            entry: read_u64(image, 24),
            program_header_offset: read_u64(image, 32),
            section_header_offset: read_u64(image, 40),
            flags: read_u32(image, 48),
            header_size: read_u16(image, 52),
            program_header_size: read_u16(image, 54),
            program_header_number_of_entries: read_u16(image, 56),
            section_header_size: read_u16(image, 58),
            section_header_number_of_entries: read_u16(image, 60),
            section_header_names_index: read_u16(image, 62),
        };
        assert(h.ident_magic@ =~= image@.subrange(0, 4));
        assert(h.ident_padding@ =~= image@.subrange(9, 16));
        h
    }

    /// The program headers: `program_header_number_of_entries` of them,
    /// 56 bytes apart from `program_header_offset` on.
    pub fn program_header(&self, image: &[u8]) -> (r: Vec<ElfProgramHeader>)
        requires
            self.program_header_offset + PROGRAM_HEADER_SIZE * self.program_header_number_of_entries
                <= image@.len(),
        ensures
            r@.len() == self.program_header_number_of_entries,
            forall|i: int|
                0 <= i < r@.len() ==> #[trigger] r@[i] == decoded_program_header(
                    image@,
                    self.program_header_offset + PROGRAM_HEADER_SIZE * i,
                ),
    {
        let _len = image.len();
        let n = self.program_header_number_of_entries as usize;
        let base = self.program_header_offset as usize;
        let mut r: Vec<ElfProgramHeader> = Vec::new();
        let mut i: usize = 0;
        while i < n
            invariant
                i <= n,
                n == self.program_header_number_of_entries,
                base == self.program_header_offset,
                base + PROGRAM_HEADER_SIZE * n <= image@.len(),
                _len == image@.len(),
                r@.len() == i,
                forall|k: int|
                    0 <= k < i ==> #[trigger] r@[k] == decoded_program_header(
                        image@,
                        base + PROGRAM_HEADER_SIZE * k,
                    ),
            decreases n - i,
        {
            let o = base + PROGRAM_HEADER_SIZE * i;
            let h = ElfProgramHeader {
                p_type: read_u32(image, o),
                flags: read_u32(image, o + 4),
                offset: read_u64(image, o + 8),
                virtual_address: read_u64(image, o + 16),
                physical_address: read_u64(image, o + 24),
                file_size: read_u64(image, o + 32),
                memory_size: read_u64(image, o + 40),
                align: read_u64(image, o + 48),
            };
            r.push(h);
            i = i + 1;
        }
        r
    }

    /// The section headers: `section_header_number_of_entries` of them,
    /// 64 bytes apart from `section_header_offset` on.
    pub fn section_header(&self, image: &[u8]) -> (r: Vec<ElfSectionHeader>)
        requires
            self.section_header_offset + SECTION_HEADER_SIZE * self.section_header_number_of_entries
                <= image@.len(),
        ensures
            r@.len() == self.section_header_number_of_entries,
            forall|i: int|
                0 <= i < r@.len() ==> #[trigger] r@[i] == decoded_section_header(
                    image@,
                    self.section_header_offset + SECTION_HEADER_SIZE * i,
                ),
    {
        let _len = image.len();
        let n = self.section_header_number_of_entries as usize;
        let base = self.section_header_offset as usize;
        let mut r: Vec<ElfSectionHeader> = Vec::new();
        let mut i: usize = 0;
        while i < n
            invariant
                i <= n,
                n == self.section_header_number_of_entries,
                base == self.section_header_offset,
                base + SECTION_HEADER_SIZE * n <= image@.len(),
                _len == image@.len(),
                r@.len() == i,
                forall|k: int|
                    0 <= k < i ==> #[trigger] r@[k] == decoded_section_header(
                        image@,
                        base + SECTION_HEADER_SIZE * k,
                    ),
            decreases n - i,
        {
            let o = base + SECTION_HEADER_SIZE * i;
            let h = ElfSectionHeader {
                name: read_u32(image, o),
                sh_type: read_u32(image, o + 4),
                flags: read_u64(image, o + 8),
                addr: read_u64(image, o + 16),
                offset: read_u64(image, o + 24),
                size: read_u64(image, o + 32),
                link: read_u32(image, o + 40),
                info: read_u32(image, o + 44),
                align: read_u64(image, o + 48),
                entry_size: read_u64(image, o + 56),
            };
            r.push(h);
            i = i + 1;
        }
        r
    }
}


/// One step of loading an image into memory.
#[derive(Clone, Copy, Debug, PartialEq, Eq, Structural)]
pub enum LoadStep {
    /// Fill `len` bytes at `addr` with zero.
    Zero { addr: u64, len: u64 },
    /// Copy `len` bytes of the image, starting `offset` bytes in, to `addr`.
    Copy { addr: u64, offset: u64, len: u64 },
}

/// The segment is one the loader knows what to do with.
pub open spec fn known_segment(h: ElfProgramHeader) -> bool {
    h.p_type == PT_LOAD || h.p_type == PT_DYNAMIC || h.p_type == PT_GNU_STACK || h.p_type
        == PT_GNU_RELRO || h.p_type == PT_GNU_EH_FRAME
}

/// Whether the loader knows segments of type `p_type`.
pub fn known_segment_type(p_type: u32) -> (r: bool)
    ensures
        r == (p_type == PT_LOAD || p_type == PT_DYNAMIC || p_type == PT_GNU_STACK || p_type
            == PT_GNU_RELRO || p_type == PT_GNU_EH_FRAME),
{
    p_type == PT_LOAD || p_type == PT_DYNAMIC || p_type == PT_GNU_STACK || p_type == PT_GNU_RELRO
        || p_type == PT_GNU_EH_FRAME
}

/// The steps for one segment: loadable and dynamic segments are zeroed over
/// their memory size and then filled from the file; the rest need nothing.
pub open spec fn segment_steps(h: ElfProgramHeader) -> Seq<LoadStep> {
    if h.p_type == PT_LOAD || h.p_type == PT_DYNAMIC {
        seq![
            LoadStep::Zero { addr: h.virtual_address, len: h.memory_size },
            LoadStep::Copy { addr: h.virtual_address, offset: h.offset, len: h.file_size },
        ]
    } else {
        seq![]
    }
}

/// The steps for the segments `hs`, in order.
pub open spec fn segments_steps(hs: Seq<ElfProgramHeader>) -> Seq<LoadStep>
    decreases hs.len(),
{
    if hs.len() == 0 {
        seq![]
    } else {
        segments_steps(hs.drop_last()) + segment_steps(hs.last())
    }
}

/// The segment is loaded: loadable and dynamic segments.
pub open spec fn loadable(h: ElfProgramHeader) -> bool {
    h.p_type == PT_LOAD || h.p_type == PT_DYNAMIC
}

/// How many of the first `i` headers of `hs` are loaded.
pub open spec fn loadable_before(hs: Seq<ElfProgramHeader>, i: int) -> int
    decreases i,
{
    if i <= 0 {
        0
    } else {
        loadable_before(hs, i - 1) + if loadable(hs[i - 1]) {
            1int
        } else {
            0int
        }
    }
}

/// The count depends on the headers counted only.
proof fn lemma_loadable_before_prefix(hs: Seq<ElfProgramHeader>, gs: Seq<ElfProgramHeader>, i: int)
    requires
        0 <= i <= hs.len(),
        i <= gs.len(),
        forall|j: int| 0 <= j < i ==> hs[j] == gs[j],
    ensures
        loadable_before(hs, i) == loadable_before(gs, i),
    decreases i,
{
    if i > 0 {
        lemma_loadable_before_prefix(hs, gs, i - 1);
    }
}

/// The count is between 0 and `i`.
proof fn lemma_loadable_before_range(hs: Seq<ElfProgramHeader>, i: int)
    requires
        0 <= i,
    ensures
        0 <= loadable_before(hs, i) <= i,
    decreases i,
{
    if i > 0 {
        lemma_loadable_before_range(hs, i - 1);
    }
}

/// The count grows with `i`, by one past each loaded header.
proof fn lemma_loadable_before_mono(hs: Seq<ElfProgramHeader>, i: int, j: int)
    requires
        0 <= i < j <= hs.len(),
    ensures
        loadable_before(hs, i) + (if loadable(hs[i]) { 1int } else { 0int }) <= loadable_before(
            hs,
            j,
        ),
    decreases j - i,
{
    if j > i + 1 {
        lemma_loadable_before_mono(hs, i, j - 1);
    }
}

/// Loading segments `hs` takes two steps for each loaded segment, in header
/// order, built from that segment's own fields: the `k`-th loaded segment
/// (counting from 0) is zeroed over its memory size at its virtual address
/// by step `2k`, then filled from its file offset with its file size by step
/// `2k + 1`. Other segments take no step.
#[verifier::spinoff_prover]
#[verifier::rlimit(60)]
pub proof fn lemma_segments_steps(hs: Seq<ElfProgramHeader>)
    ensures
        segments_steps(hs).len() == 2 * loadable_before(hs, hs.len() as int),
        forall|i: int|
            0 <= i < hs.len() && loadable(#[trigger] hs[i]) ==> segments_steps(hs)[2
                * loadable_before(hs, i)] == (LoadStep::Zero {
                addr: hs[i].virtual_address,
                len: hs[i].memory_size,
            }) && segments_steps(hs)[2 * loadable_before(hs, i) + 1] == (LoadStep::Copy {
                addr: hs[i].virtual_address,
                offset: hs[i].offset,
                len: hs[i].file_size,
            }),
        forall|i: int, j: int|
            0 <= i < j < hs.len() && loadable(#[trigger] hs[i]) && loadable(#[trigger] hs[j])
                ==> 2 * loadable_before(hs, i) + 1 < 2 * loadable_before(hs, j),
    decreases hs.len(),
{
    if hs.len() > 0 {
        let g = hs.drop_last();
        let n = hs.len() - 1;
        let a = segments_steps(g);
        let b = segment_steps(hs[n]);
        assert(segments_steps(hs) == a + b);
        lemma_segments_steps(g);
        lemma_loadable_before_prefix(hs, g, n);
        assert(loadable_before(hs, n + 1) == loadable_before(hs, n) + if loadable(hs[n]) {
            1int
        } else {
            0int
        });
        assert forall|i: int| 0 <= i < hs.len() && loadable(#[trigger] hs[i]) implies segments_steps(
            hs,
        )[2 * loadable_before(hs, i)] == (LoadStep::Zero {
            addr: hs[i].virtual_address,
            len: hs[i].memory_size,
        }) && segments_steps(hs)[2 * loadable_before(hs, i) + 1] == (LoadStep::Copy {
            addr: hs[i].virtual_address,
            offset: hs[i].offset,
            len: hs[i].file_size,
        }) by {
            lemma_loadable_before_prefix(hs, g, i);
            let k = 2 * loadable_before(hs, i);
            lemma_loadable_before_range(hs, i);
            if i < n {
                assert(g[i] == hs[i]);
                lemma_loadable_before_mono(g, i, n);
                assert(k + 1 < a.len());
                assert((a + b)[k] == a[k]);
                assert((a + b)[k + 1] == a[k + 1]);
            } else {
                assert(k == a.len());
                assert((a + b)[k] == b[0]);
                assert((a + b)[k + 1] == b[1]);
            }
        }
        assert forall|i: int, j: int|
            0 <= i < j < hs.len() && loadable(#[trigger] hs[i]) && loadable(#[trigger] hs[j]) implies 2
            * loadable_before(hs, i) + 1 < 2 * loadable_before(hs, j) by {
            lemma_loadable_before_mono(hs, i, j);
        }
    }
}

/// The steps for the first `n` headers, as `lemma_segments_steps` states
/// them, with the positions counted in all of `hs`.
proof fn lemma_plan_steps(hs: Seq<ElfProgramHeader>, n: int)
    requires
        0 <= n <= hs.len(),
    ensures
        segments_steps(hs.take(n)).len() == 2 * loadable_before(hs, n),
        forall|i: int|
            0 <= i < n && loadable(#[trigger] hs[i]) ==> segments_steps(hs.take(n))[2
                * loadable_before(hs, i)] == (LoadStep::Zero {
                addr: hs[i].virtual_address,
                len: hs[i].memory_size,
            }) && segments_steps(hs.take(n))[2 * loadable_before(hs, i) + 1] == (LoadStep::Copy {
                addr: hs[i].virtual_address,
                offset: hs[i].offset,
                len: hs[i].file_size,
            }),
{
    let t = hs.take(n);
    lemma_segments_steps(t);
    lemma_loadable_before_prefix(t, hs, n);
    assert forall|i: int| 0 <= i < n && loadable(#[trigger] hs[i]) implies segments_steps(t)[2
        * loadable_before(hs, i)] == (LoadStep::Zero {
        addr: hs[i].virtual_address,
        len: hs[i].memory_size,
    }) && segments_steps(t)[2 * loadable_before(hs, i) + 1] == (LoadStep::Copy {
        addr: hs[i].virtual_address,
        offset: hs[i].offset,
        len: hs[i].file_size,
    }) by {
        assert(t[i] == hs[i]);
        lemma_loadable_before_prefix(t, hs, i);
    }
}

/// What loading an image does: the steps to perform in order, how many
/// program headers they cover, and the type of the segment the loader stopped
/// at, if it met one it does not know.
#[derive(Clone, Debug)]
pub struct LoadPlan {
    pub steps: Vec<LoadStep>,
    pub loaded: usize,
    pub unknown: Option<u32>,
}

/// Plans loading an image with program headers `headers`: the steps of each
/// segment in order, then zeroing the fixed bss area. At the first segment of
/// a type the loader does not know, the plan stops: the segments before it
/// are loaded, and the unknown type is reported instead of the bss step.
#[verifier::spinoff_prover]
#[verifier::rlimit(60)]
pub fn load_plan(headers: &[ElfProgramHeader]) -> (plan: LoadPlan)
    ensures
        plan.loaded <= headers@.len(),
        forall|i: int| 0 <= i < plan.loaded ==> known_segment(#[trigger] headers@[i]),
        plan.loaded < headers@.len() ==> !known_segment(headers@[plan.loaded as int])
            && plan.unknown == Some(headers@[plan.loaded as int].p_type),
        plan.loaded == headers@.len() ==> plan.unknown is None,
        forall|i: int|
            0 <= i < plan.loaded && loadable(#[trigger] headers@[i]) ==> plan.steps@[2
                * loadable_before(headers@, i)] == (LoadStep::Zero {
                addr: headers@[i].virtual_address,
                len: headers@[i].memory_size,
            }) && plan.steps@[2 * loadable_before(headers@, i) + 1] == (LoadStep::Copy {
                addr: headers@[i].virtual_address,
                offset: headers@[i].offset,
                len: headers@[i].file_size,
            }),
        plan.loaded == headers@.len() ==> plan.steps@.len() == 2 * loadable_before(
            headers@,
            headers@.len() as int,
        ) + 1 && plan.steps@.last() == (LoadStep::Zero { addr: BSS_START, len: BSS_LEN }),
        plan.steps@ == (if plan.loaded == headers@.len() {
            segments_steps(headers@).push(LoadStep::Zero { addr: BSS_START, len: BSS_LEN })
        } else {
            segments_steps(headers@.take(plan.loaded as int))
        }),
{
    let mut steps: Vec<LoadStep> = Vec::new();
    let mut i: usize = 0;
    while i < headers.len()
        invariant
            i <= headers@.len(),
            steps@ == segments_steps(headers@.take(i as int)),
            forall|j: int| 0 <= j < i ==> known_segment(#[trigger] headers@[j]),
        decreases headers@.len() - i,
    {
        let h = headers[i];
        if !known_segment_type(h.p_type) {
            proof {
                lemma_plan_steps(headers@, i as int);
            }
            return LoadPlan { steps, loaded: i, unknown: Some(h.p_type) };
        }
        if h.p_type == PT_LOAD || h.p_type == PT_DYNAMIC {
            steps.push(LoadStep::Zero { addr: h.virtual_address, len: h.memory_size });
            steps.push(
                LoadStep::Copy { addr: h.virtual_address, offset: h.offset, len: h.file_size },
            );
        }
        assert(headers@.take(i as int + 1).drop_last() =~= headers@.take(i as int));
        assert(headers@.take(i as int + 1).last() == h);
        i = i + 1;
        assert(steps@ =~= segments_steps(headers@.take(i as int)));
    }
    assert(headers@.take(i as int) =~= headers@);
    proof {
        lemma_plan_steps(headers@, i as int);
    }
    let ghost pre = steps@;
    steps.push(LoadStep::Zero { addr: BSS_START, len: BSS_LEN });
    proof {
        assert forall|j: int| 0 <= j < i && loadable(#[trigger] headers@[j]) implies steps@[2
            * loadable_before(headers@, j)] == (LoadStep::Zero {
            addr: headers@[j].virtual_address,
            len: headers@[j].memory_size,
        }) && steps@[2 * loadable_before(headers@, j) + 1] == (LoadStep::Copy {
            addr: headers@[j].virtual_address,
            offset: headers@[j].offset,
            len: headers@[j].file_size,
        }) by {
            lemma_loadable_before_mono(headers@, j, i as int);
            lemma_loadable_before_range(headers@, j);
            let k = 2 * loadable_before(headers@, j);
            assert(k + 1 < pre.len());
            assert(steps@[k] == pre[k]);
            assert(steps@[k + 1] == pre[k + 1]);
        }
    }
    LoadPlan { steps, loaded: i, unknown: None }
}

} // verus!
