use kermit::acpi::{find_rsdp, sdt_entries, sdt_entry_count, SdtHeader, RSDP_SLOTS, RSDP_SIZE};
use kermit::acpica::{create_handle, FIRST_HANDLE, AE_OK, parent_handle, port_width, printable_len, status_result, CStr, PortWidth};

fn area() -> Vec<u8> {
    vec![0u8; 16 * RSDP_SLOTS + RSDP_SIZE]
}

#[test]
fn no_rsdp_in_empty_area() {
    assert!(find_rsdp(&area()).is_none());
}

#[test]
fn rsdp_only_on_16_byte_boundaries() {
    let mut a = area();
    a[0x108..0x110].copy_from_slice(b"RSD PTR ");
    assert!(find_rsdp(&a).is_none());
    a[0x200..0x208].copy_from_slice(b"RSD PTR ");
    a[0x208] = 0x42;
    a[0x209..0x20f].copy_from_slice(b"BOCHS ");
    a[0x20f] = 2;
    a[0x210..0x214].copy_from_slice(&0x7fe_1234u32.to_le_bytes());
    a[0x214..0x218].copy_from_slice(&36u32.to_le_bytes());
    a[0x218..0x220].copy_from_slice(&0x1_0000_0002u64.to_le_bytes());
    a[0x300..0x308].copy_from_slice(b"RSD PTR ");
    let r = find_rsdp(&a).unwrap();
    assert_eq!(&r.signature.0, b"RSD PTR ");
    assert_eq!(r.checksum, 0x42);
    assert_eq!(&r.oemid.0, b"BOCHS ");
    assert_eq!(r.revision, 2);
    assert_eq!(r.rsdt_address, 0x7fe_1234);
    assert_eq!(r.length, 36);
    assert_eq!(r.xsdt_address, 0x1_0000_0002);
}

#[test]
fn rsdp_at_the_last_slot() {
    let mut a = area();
    let o = 16 * (RSDP_SLOTS - 1);
    a[o..o + 8].copy_from_slice(b"RSD PTR ");
    assert!(find_rsdp(&a).is_some());
}

#[test]
fn sdt_header() {
    let mut b = vec![0u8; 40];
    b[0..4].copy_from_slice(b"RSDT");
    b[4..8].copy_from_slice(&52u32.to_le_bytes());
    b[8] = 1;
    b[9] = 0x99;
    b[10..16].copy_from_slice(b"BOCHS ");
    b[16..24].copy_from_slice(b"BXPCRSDT");
    b[24..28].copy_from_slice(&1u32.to_le_bytes());
    b[28..32].copy_from_slice(&0x4350_5842u32.to_le_bytes());
    b[32..36].copy_from_slice(&1u32.to_le_bytes());
    let h = SdtHeader::read(&b);
    assert_eq!(&h.signature.0, b"RSDT");
    assert_eq!(h.length, 52);
    assert_eq!(h.revision, 1);
    assert_eq!(h.checksum, 0x99);
    assert_eq!(&h.oem_table_id.0, b"BXPCRSDT");
    assert_eq!(h.creator_id, 0x4350_5842);
    assert_eq!(sdt_entry_count(h.length), 4);
    assert_eq!(sdt_entry_count(36), 0);
    assert_eq!(sdt_entry_count(39), 0);
}

#[test]
fn c_strings() {
    let c = CStr::new("_UID");
    assert_eq!(&c.0[..5], b"_UID\0");
    assert!(c.0[5..].iter().all(|b| *b == 0));
    let c = CStr::new("");
    assert!(c.0.iter().all(|b| *b == 0));
}

#[test]
fn acpica_results() {
    assert_eq!(parent_handle(None), 0);
    assert_eq!(parent_handle(Some(0x55)), 0x55);
    assert_eq!(status_result(0, 7usize), Ok(7));
    assert_eq!(status_result(5, 7usize), Err(5));
}

#[test]
fn handles_count_up() {
    let mut counter: usize = FIRST_HANDLE;
    let mut p1: usize = 0;
    let mut p2: usize = 0;
    assert_eq!(create_handle(&mut counter, &mut p1), AE_OK);
    assert_eq!(create_handle(&mut counter, &mut p2), AE_OK);
    assert_eq!(p1, 1);
    assert_eq!(p2, p1 + 1);
    assert_eq!(counter, 3);
}

#[test]
fn port_widths() {
    assert_eq!(port_width(8), Some(PortWidth::Byte));
    assert_eq!(port_width(16), Some(PortWidth::Word));
    assert_eq!(port_width(32), Some(PortWidth::Dword));
    assert_eq!(port_width(64), None);
    assert_eq!(port_width(0), None);
}

#[test]
fn printable_prefix() {
    assert_eq!(printable_len(b"Hello\0world"), 5);
    assert_eq!(printable_len(b"\0"), 0);
    assert_eq!(printable_len(b"abc"), 3);
    let long = [b'x'; 300];
    assert_eq!(printable_len(&long), 200);
    let mut nul_late = [b'y'; 250];
    nul_late[220] = 0;
    assert_eq!(printable_len(&nul_late), 200);
}

#[test]
fn sdt_entries_are_little_endian() {
    let data = [0x00, 0x10, 0xfe, 0x07, 0x78, 0x56, 0x34, 0x12, 0xff];
    assert_eq!(sdt_entries(&data, 2), vec![0x07fe_1000, 0x1234_5678]);
    assert_eq!(sdt_entries(&data, 0), Vec::<u32>::new());
}
