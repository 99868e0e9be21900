use kermit::paging::{
    handle_page_fault, init, EntryFlags, PageMemory, PageTable, PageTableEntry, ADDRESS,
    FIRST_FREE_PAGE, NO_EXECUTE, PRESENT, USER_ACCESSIBLE, WRITABLE,
};

#[test]
fn entry_starts_empty() {
    let e = PageTableEntry::new();
    assert_eq!(e.0, 0);
    assert!(!e.is_present());
}

#[test]
fn set_entry_with_flags_and_address() {
    let mut e = PageTableEntry::new();
    e.set(0x1234_5678, EntryFlags { bits: PRESENT | WRITABLE });
    assert_eq!(e.0, 0x1234_5003);
    assert!(e.is_present());
    assert_eq!(e.address(), 0x1234_5000);
}

#[test]
fn set_keeps_flag_bits_in_the_address_range() {
    let mut e = PageTableEntry::new();
    e.set(0, EntryFlags { bits: ADDRESS });
    assert_eq!(e.0, ADDRESS);
}

#[test]
fn set_address_keeps_flags() {
    let mut e = PageTableEntry(NO_EXECUTE | PRESENT | 0x5000);
    e.set_address(0xABC_DEF1);
    assert_eq!(e.0, NO_EXECUTE | PRESENT | 0xABC_D000);
    assert!(e.is_present());
}

#[test]
fn set_then_clear_flags() {
    let mut e = PageTableEntry(0x7000 | PRESENT);
    let f = EntryFlags { bits: WRITABLE | USER_ACCESSIBLE };
    e.set_flags(f);
    assert_eq!(e.0, 0x7000 | PRESENT | WRITABLE | USER_ACCESSIBLE);
    e.clear_flags(f);
    assert_eq!(e.0, 0x7000 | PRESENT);
    e.clear_flags(EntryFlags { bits: PRESENT });
    assert!(!e.is_present());
}

#[test]
fn flags_bits() {
    let f = EntryFlags { bits: PRESENT | WRITABLE };
    assert_eq!(f.bits(), 3);
}

#[test]
fn address_to_tables_splits_the_address() {
    let r = PageTable::address_to_tables(0xFFFF_8000_1234_567F);
    assert_eq!(r, (0x100, 0x0, 0x91, 0x145, 0x67F));
    let r = PageTable::address_to_tables(0x40_1000);
    assert_eq!(r, (0, 0, 2, 1, 0));
}

#[test]
fn address_to_tables_recomposes() {
    let a: u64 = 0x0000_7ABC_DEF0_1234;
    let (p4, p3, p2, p1, off) = PageTable::address_to_tables(a);
    let back = ((p4 as u64) << 39) | ((p3 as u64) << 30) | ((p2 as u64) << 21) | ((p1 as u64) << 12) | off as u64;
    assert_eq!(back, a & 0xFFFF_FFFF_FFFF);
}

#[test]
fn new_table_is_empty() {
    let t = PageTable::new();
    assert!(t.0.iter().all(|e| e.0 == 0));
}

#[test]
fn walk_creates_all_levels() {
    let mut mem = PageMemory::new();
    let mut root = PageTable::new();
    assert_eq!(mem.first_free_page(), FIRST_FREE_PAGE);
    let loc = root.create_or_get_entry(&mut mem, 0x40_1000).unwrap();
    assert_eq!(mem.first_free_page(), FIRST_FREE_PAGE + 4 * 4096);
    // level 3 table is the first page, level 2 the second, level 1 the third
    assert_eq!(root.0[0].0, FIRST_FREE_PAGE | 7);
    assert_eq!(mem.read_entry(FIRST_FREE_PAGE, 0).0, (FIRST_FREE_PAGE + 4096) | 7);
    assert_eq!(mem.read_entry(FIRST_FREE_PAGE + 4096, 2).0, (FIRST_FREE_PAGE + 8192) | 7);
    assert_eq!(loc.table, FIRST_FREE_PAGE + 8192);
    assert_eq!(loc.index, 1);
    assert_eq!(mem.read_entry(loc.table, loc.index).0, (FIRST_FREE_PAGE + 3 * 4096) | 7);
    // the other entries stay empty
    assert_eq!(root.0[1].0, 0);
    assert_eq!(mem.read_entry(FIRST_FREE_PAGE, 1).0, 0);
}

#[test]
fn walk_twice_changes_nothing() {
    let mut mem = PageMemory::new();
    let mut root = PageTable::new();
    let loc1 = root.create_or_get_entry(&mut mem, 0x40_1000).unwrap();
    let before = mem.first_free_page();
    let loc2 = root.create_or_get_entry(&mut mem, 0x40_1abc).unwrap();
    assert_eq!(loc1, loc2);
    assert_eq!(mem.first_free_page(), before);
}

#[test]
fn neighbouring_page_shares_the_tables() {
    let mut mem = PageMemory::new();
    let mut root = PageTable::new();
    let loc1 = root.create_or_get_entry(&mut mem, 0x40_1000).unwrap();
    let loc2 = root.create_or_get_entry(&mut mem, 0x40_2000).unwrap();
    assert_eq!(loc2.table, loc1.table);
    assert_eq!(loc2.index, 2);
    // only the final page was new
    assert_eq!(mem.first_free_page(), FIRST_FREE_PAGE + 5 * 4096);
    // the first mapping is untouched
    assert_eq!(mem.read_entry(loc1.table, 1).0, (FIRST_FREE_PAGE + 3 * 4096) | 7);
}

#[test]
fn page_fault_maps_the_faulting_address() {
    let mut mem = PageMemory::new();
    let mut root = PageTable::new();
    assert_eq!(handle_page_fault(&mut root, &mut mem, 0x7FFF_FFFF_F000), Ok(()));
    let (p4, _, _, _, _) = PageTable::address_to_tables(0x7FFF_FFFF_F000);
    assert_eq!(p4, 255);
    assert!(root.0[255].is_present());
    assert_eq!(mem.first_free_page(), FIRST_FREE_PAGE + 4 * 4096);
}

#[test]
fn alloc_page_hands_out_consecutive_pages() {
    let mut mem = PageMemory::new();
    let a = mem.alloc_page(2);
    let b = mem.alloc_page(1);
    assert_eq!(a, FIRST_FREE_PAGE);
    assert_eq!(b, FIRST_FREE_PAGE + 2 * 4096);
    assert_eq!(mem.read_entry(a + 4096, 17).0, 0);
}

#[test]
fn init_shares_the_kernel_entry() {
    let mut boot = PageTable::new();
    boot.0[511] = PageTableEntry(0x1000 | 3);
    boot.0[5] = PageTableEntry(0x9000 | 3);
    let mut proc_table = PageTable::new();
    init(&mut proc_table, &boot);
    assert_eq!(proc_table.0[511].0, 0x1003);
    assert_eq!(proc_table.0[5].0, 0);
}

#[test]
fn new_pages_are_zeroed_but_for_the_walk() {
    let mut mem = PageMemory::new();
    let mut root = PageTable::new();
    assert_eq!(root.walk_pages_needed(&mem, 0x40_1000), Ok(4 * 4096));
    let loc = root.create_or_get_entry(&mut mem, 0x40_1000).unwrap();
    let leaf = mem.read_entry(loc.table, loc.index).address();
    assert_eq!(leaf, FIRST_FREE_PAGE + 3 * 4096);
    for i in 0..512 {
        assert_eq!(mem.read_entry(leaf, i).0, 0);
        if i != 1 {
            assert_eq!(mem.read_entry(loc.table, i).0, 0);
        }
    }
    assert_eq!(root.walk_pages_needed(&mem, 0x40_1000), Ok(0));
    assert_eq!(root.walk_pages_needed(&mem, 0x40_2000), Ok(4096));
    assert_eq!(root.walk_pages_needed(&mem, 0x4000_0000), Ok(3 * 4096));
}

#[test]
fn kernel_half_walks_through_loaded_boot_tables() {
    // a boot level-3 table at 0x2000 whose entry 510 points at a boot
    // level-2 table at 0x3000; the process table shares root entry 511
    let mut mem = PageMemory::new();
    let mut boot_p4 = PageTable::new();
    boot_p4.0[511] = PageTableEntry(0x2000 | 3);
    let mut boot_p3 = PageTable::new();
    boot_p3.0[510] = PageTableEntry(0x3000 | 3);
    let boot_p2 = PageTable::new();
    let mut root = PageTable::new();
    init(&mut root, &boot_p4);
    let addr: u64 = 0xFFFF_FFFF_8040_1000;
    // the walk asks for the tables it does not hold, in order
    assert_eq!(root.walk_pages_needed(&mem, addr), Err(0x2000));
    assert_eq!(handle_page_fault(&mut root, &mut mem, addr), Err(0x2000));
    assert_eq!(mem.first_free_page(), FIRST_FREE_PAGE);
    mem.load_frame(0x2000, boot_p3);
    assert_eq!(root.walk_pages_needed(&mem, addr), Err(0x3000));
    mem.load_frame(0x3000, boot_p2);
    assert_eq!(root.walk_pages_needed(&mem, addr), Ok(2 * 4096));
    assert_eq!(handle_page_fault(&mut root, &mut mem, addr), Ok(()));
    // the boot level-2 table now points at a fresh level-1 table
    assert_eq!(mem.read_entry(0x3000, 2).0, FIRST_FREE_PAGE | 7);
    assert_eq!(mem.read_entry(FIRST_FREE_PAGE, 1).0, (FIRST_FREE_PAGE + 4096) | 7);
    assert_eq!(mem.first_free_page(), FIRST_FREE_PAGE + 2 * 4096);
    // the boot entries on the way are kept
    assert_eq!(root.0[511].0, 0x2000 | 3);
    assert_eq!(mem.read_entry(0x2000, 510).0, 0x3000 | 3);
    // a second fault on the page changes nothing
    assert_eq!(root.walk_pages_needed(&mem, addr), Ok(0));
}
