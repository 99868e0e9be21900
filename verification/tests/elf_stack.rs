use kermit::elf::auxdata::{
    AT_CLKTCK, AT_EGID, AT_ENTRY, AT_EUID, AT_EXECFN, AT_GID, AT_PAGESZ, AT_PHDR, AT_PHENT,
    AT_PHNUM, AT_PLATFORM, AT_RANDOM, AT_SECURE, AT_UID,
};
use kermit::elf::{ElfHeader, ElfStack};

fn header() -> ElfHeader {
    ElfHeader {
        ident_magic: [0x7f, b'E', b'L', b'F'],
        ident_class: 2,
        ident_data: 1,
        ident_version: 1,
        ident_osabi: 0,
        ident_abiversion: 0,
        ident_padding: [0; 7],
        elf_type: 2,
        machine: 0x3e,
        version: 1,
        entry: 0x40_1000,
        program_header_offset: 64,
        section_header_offset: 0x2000,
        flags: 0,
        header_size: 64,
        program_header_size: 56,
        program_header_number_of_entries: 7,
        section_header_size: 64,
        section_header_number_of_entries: 20,
        section_header_names_index: 19,
    }
}

fn word(s: &ElfStack, addr: usize) -> u64 {
    let off = addr - s.bottom();
    let m = s.memory();
    u64::from_le_bytes([m[off], m[off + 1], m[off + 2], m[off + 3], m[off + 4], m[off + 5], m[off + 6], m[off + 7]])
}

fn c_string(s: &ElfStack, addr: usize) -> Vec<u8> {
    let m = s.memory();
    let mut off = addr - s.bottom();
    let mut out = Vec::new();
    while m[off] != 0 {
        out.push(m[off]);
        off += 1;
    }
    out
}

#[test]
fn new_stack_is_empty() {
    let s = ElfStack::new(0x10000, 0x1000);
    assert_eq!(s.top, 0x10000);
    assert_eq!(s.bottom(), 0xF000);
    assert_eq!(s.memory().len(), 0x1000);
    assert!(s.memory().iter().all(|b| *b == 0));
    assert!(s.fits_initial_stack());
}

#[test]
fn small_stack_does_not_fit() {
    let s = ElfStack::new(0x10000, 607);
    assert!(!s.fits_initial_stack());
    let s = ElfStack::new(0x10000, 608);
    assert!(s.fits_initial_stack());
    let mut s = s;
    s.write(&header());
    assert_eq!(s.top, s.bottom());
}

#[test]
fn aux_strings_are_written_below_the_top() {
    let mut s = ElfStack::new(0x10000, 0x1000);
    s.write_aux_strings();
    assert_eq!(s.top, 0x10000 - 7 - 8 - 16);
    assert_eq!(c_string(&s, 0x10000 - 7), b"x86_64".to_vec());
    assert_eq!(c_string(&s, 0x10000 - 15), b"/bin/ld".to_vec());
}

#[test]
fn aux_table_layout() {
    let mut s = ElfStack::new(0x10000, 0x1000);
    s.write_aux_table(&header());
    assert_eq!(s.top, 0x10000 - 18 * 16);
    // the last pair pushed lies lowest
    assert_eq!(word(&s, s.top), AT_RANDOM as u64);
    assert_eq!(word(&s, 0x10000 - 16), 0);
    assert_eq!(word(&s, 0x10000 - 8), 0);
}

#[test]
fn full_initial_stack() {
    let mut s = ElfStack::new(0x10000, 0x1000);
    s.write(&header());
    let platform = 0x10000 - 7;
    let execfn = platform - 8;
    let random = execfn - 16;
    let env0 = random - 14;
    let a0 = random - 113 - 12;
    let a1 = a0 - 10;
    let a2 = a1 - 12;
    assert_eq!(s.top, 0xFDA0);
    assert_eq!(s.top % 16, 0);
    let t = s.top;
    let mut expect: Vec<u64> = vec![3, a0 as u64, a1 as u64, a2 as u64, 0, 0];
    for _ in 0..10 {
        expect.push(env0 as u64);
    }
    let aux: [(usize, u64); 18] = [
        (AT_RANDOM, random as u64),
        (AT_SECURE, 0),
        (AT_EGID, 0),
        (AT_GID, 0),
        (AT_EUID, 0),
        (AT_UID, 0),
        (AT_CLKTCK, 100),
        (AT_PAGESZ, 4096),
        (AT_PLATFORM, platform as u64),
        (AT_EXECFN, execfn as u64),
        (AT_ENTRY, 0x40_1000),
        (AT_PHNUM, 7),
        (AT_PHENT, 56),
        (AT_PHDR, 64),
        (16, 0),
        (8, 0),
        (7, 0),
        (0, 0),
    ];
    for (k, v) in aux.iter() {
        expect.push(*k as u64);
        expect.push(*v);
    }
    assert_eq!(expect.len(), 52);
    for (i, w) in expect.iter().enumerate() {
        assert_eq!(word(&s, t + 8 * i), *w, "word {}", i);
    }
    assert_eq!(c_string(&s, a0), b"/ld/ld.so.1".to_vec());
    assert_eq!(c_string(&s, a1), b"/bin/echo".to_vec());
    assert_eq!(c_string(&s, a2), b"Hello World".to_vec());
    assert_eq!(c_string(&s, env0), b"CHARSET=UTF-8".to_vec());
    assert_eq!(c_string(&s, env0 - 11), b"HOME=/root".to_vec());
    assert_eq!(c_string(&s, random - 113), b"USER=root".to_vec());
    assert_eq!(c_string(&s, platform), b"x86_64".to_vec());
    assert_eq!(c_string(&s, execfn), b"/bin/ld".to_vec());
}
