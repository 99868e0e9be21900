use kermit::elf::header::{load_plan, ElfProgramHeader, LoadStep, BSS_LEN, BSS_START, PT_GNU_STACK, PT_LOAD, PT_DYNAMIC};
use kermit::elf::ElfHeader;

fn put16(b: &mut [u8], o: usize, v: u16) {
    b[o..o + 2].copy_from_slice(&v.to_le_bytes());
}
fn put32(b: &mut [u8], o: usize, v: u32) {
    b[o..o + 4].copy_from_slice(&v.to_le_bytes());
}
fn put64(b: &mut [u8], o: usize, v: u64) {
    b[o..o + 8].copy_from_slice(&v.to_le_bytes());
}

fn image() -> Vec<u8> {
    let mut b = vec![0u8; 0x400];
    b[0..4].copy_from_slice(&[0x7f, b'E', b'L', b'F']);
    b[4] = 2;
    b[5] = 1;
    b[6] = 1;
    b[9] = 0xAA;
    b[15] = 0xBB;
    put16(&mut b, 16, 2);
    put16(&mut b, 18, 0x3e);
    put32(&mut b, 20, 1);
    put64(&mut b, 24, 0x40_1234);
    put64(&mut b, 32, 64);
    put64(&mut b, 40, 0x200);
    put32(&mut b, 48, 0xdead_beef);
    put16(&mut b, 52, 64);
    put16(&mut b, 54, 56);
    put16(&mut b, 56, 2);
    put16(&mut b, 58, 64);
    put16(&mut b, 60, 1);
    put16(&mut b, 62, 0);
    // program header 0: PT_LOAD
    put32(&mut b, 64, 1);
    put32(&mut b, 68, 5);
    put64(&mut b, 72, 0x100);
    put64(&mut b, 80, 0x40_0000);
    put64(&mut b, 88, 0x40_0000);
    put64(&mut b, 96, 0x80);
    put64(&mut b, 104, 0x1000);
    put64(&mut b, 112, 0x1000);
    // program header 1: PT_GNU_STACK
    put32(&mut b, 120, 0x6474e551);
    // section header 0
    put32(&mut b, 0x200, 7);
    put32(&mut b, 0x204, 1);
    put64(&mut b, 0x208, 6);
    put64(&mut b, 0x210, 0x40_1000);
    put64(&mut b, 0x218, 0x1000);
    put64(&mut b, 0x220, 0x42);
    put32(&mut b, 0x228, 3);
    put32(&mut b, 0x22c, 4);
    put64(&mut b, 0x230, 16);
    put64(&mut b, 0x238, 24);
    b
}

#[test]
fn header_fields_are_read_little_endian() {
    let img = image();
    let h = ElfHeader::load(&img);
    assert_eq!(h.ident_magic, [0x7f, b'E', b'L', b'F']);
    assert_eq!(h.ident_class, 2);
    assert_eq!(h.ident_data, 1);
    assert_eq!(h.ident_padding, [0xAA, 0, 0, 0, 0, 0, 0xBB]);
    assert_eq!(h.elf_type, 2);
    assert_eq!(h.machine, 0x3e);
    assert_eq!(h.entry, 0x40_1234);
    assert_eq!(h.program_header_offset, 64);
    assert_eq!(h.section_header_offset, 0x200);
    assert_eq!(h.flags, 0xdead_beef);
    assert_eq!(h.program_header_size, 56);
    assert_eq!(h.program_header_number_of_entries, 2);
    assert_eq!(h.section_header_number_of_entries, 1);
}

#[test]
fn program_headers() {
    let img = image();
    let h = ElfHeader::load(&img);
    let ph = h.program_header(&img);
    assert_eq!(ph.len(), 2);
    assert_eq!(
        ph[0],
        ElfProgramHeader {
            p_type: PT_LOAD,
            flags: 5,
            offset: 0x100,
            virtual_address: 0x40_0000,
            physical_address: 0x40_0000,
            file_size: 0x80,
            memory_size: 0x1000,
            align: 0x1000,
        }
    );
    assert_eq!(ph[1].p_type, PT_GNU_STACK);
}

#[test]
fn section_headers() {
    let img = image();
    let h = ElfHeader::load(&img);
    let sh = h.section_header(&img);
    assert_eq!(sh.len(), 1);
    assert_eq!(sh[0].name, 7);
    assert_eq!(sh[0].addr, 0x40_1000);
    assert_eq!(sh[0].size, 0x42);
    assert_eq!(sh[0].link, 3);
    assert_eq!(sh[0].info, 4);
    assert_eq!(sh[0].entry_size, 24);
}

#[test]
fn load_plan_zeroes_then_copies_loadable_segments() {
    let img = image();
    let h = ElfHeader::load(&img);
    let ph = h.program_header(&img);
    let plan = load_plan(&ph);
    assert_eq!(plan.unknown, None);
    assert_eq!(plan.loaded, ph.len());
    assert_eq!(
        plan.steps,
        vec![
            LoadStep::Zero { addr: 0x40_0000, len: 0x1000 },
            LoadStep::Copy { addr: 0x40_0000, offset: 0x100, len: 0x80 },
            LoadStep::Zero { addr: BSS_START, len: BSS_LEN },
        ]
    );
}

#[test]
fn load_plan_handles_dynamic_segments_and_nothing() {
    let d = ElfProgramHeader {
        p_type: PT_DYNAMIC,
        flags: 0,
        offset: 8,
        virtual_address: 0x60_0000,
        physical_address: 0,
        file_size: 16,
        memory_size: 32,
        align: 8,
    };
    assert_eq!(
        load_plan(&[d]).steps,
        vec![
            LoadStep::Zero { addr: 0x60_0000, len: 32 },
            LoadStep::Copy { addr: 0x60_0000, offset: 8, len: 16 },
            LoadStep::Zero { addr: 0x601140, len: 0x1128 },
        ]
    );
    assert_eq!(load_plan(&[]).steps, vec![LoadStep::Zero { addr: 0x601140, len: 0x1128 }]);
}

#[test]
fn load_plan_stops_at_an_unknown_segment() {
    let d = ElfProgramHeader {
        p_type: PT_LOAD,
        flags: 0,
        offset: 8,
        virtual_address: 0x60_0000,
        physical_address: 0,
        file_size: 16,
        memory_size: 32,
        align: 8,
    };
    let bad = ElfProgramHeader { p_type: 7, ..d };
    let plan = load_plan(&[d, bad, d]);
    assert_eq!(plan.loaded, 1);
    assert_eq!(plan.unknown, Some(7));
    assert_eq!(
        plan.steps,
        vec![
            LoadStep::Zero { addr: 0x60_0000, len: 32 },
            LoadStep::Copy { addr: 0x60_0000, offset: 8, len: 16 },
        ]
    );
}
