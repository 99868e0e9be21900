use kermit::gdt::{build, Selectors};
use x86_64::structures::tss::TaskStateSegment;

static TSS: TaskStateSegment = TaskStateSegment::new();

#[test]
fn gdt_layout_and_selectors() {
    let (gdt, sel) = build(&TSS);
    assert_eq!(
        sel,
        Selectors { kernel_code: 8, kernel_data: 16, user_code: 27, user_data: 35, tss_selector: 40 }
    );
    let entries = gdt.entries();
    assert_eq!(entries.len(), 7);
    let raw: Vec<u64> = entries[..5].iter().map(|e| e.raw()).collect();
    assert_eq!(
        raw,
        vec![
            0,
            (1 << 47) | (1 << 44) | (1 << 41) | (1 << 53) | (1 << 43),
            (1 << 47) | (1 << 44) | (1 << 41) | (1 << 53),
            (1 << 47) | (1 << 44) | (3 << 45) | (1 << 41) | (1 << 53) | (1 << 43),
            (1 << 47) | (1 << 44) | (3 << 45) | (1 << 41) | (1 << 53),
        ]
    );
}
