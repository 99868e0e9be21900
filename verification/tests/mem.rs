use kermit::interrupts::{interrupt_action, InterruptAction, InteruptStack};
use kermit::mem::{copy_str_safe, malloc};
use kermit::pages::{alloc_pages, free, init_first_page};

#[test]
fn malloc_bumps() {
    let mut last: usize = 0x1000;
    assert_eq!(malloc(&mut last, 0x10), 0x1000);
    assert_eq!(last, 0x1010);
    assert_eq!(malloc(&mut last, 3), 0x1010);
    // 0x1013 + 0x1013 % 16
    assert_eq!(last, 0x1016);
}

#[test]
fn copy_str_into_buffer() {
    let mut buf = [0xeeu8; 6];
    copy_str_safe(&mut buf, "abcd");
    assert_eq!(buf, [b'a', b'b', b'c', b'd', 0, 0xee]);
}

#[test]
fn page_numbers() {
    let mut first: u64 = 0;
    init_first_page(&mut first, 100);
    assert_eq!(alloc_pages(&mut first, 3), 100);
    assert_eq!(alloc_pages(&mut first, 1), 103);
    assert_eq!(first, 104);
    free(100, 3);
    assert_eq!(first, 104);
}

fn regs(number: u64) -> InteruptStack {
    InteruptStack {
        r11: 0, r10: 0, r9: 0, r8: 0, rax: 0, rcx: 0, rdx: 0, rsi: 0, rdi: 0,
        number, code: 0, rip: 0xabc, cs: 0, flags: 0, rsp: 0, ds: 0,
    }
}

#[test]
fn interrupt_actions() {
    assert_eq!(interrupt_action(&regs(3)), InterruptAction::Ignore);
    assert_eq!(interrupt_action(&regs(32)), InterruptAction::Ignore);
    assert_eq!(interrupt_action(&regs(14)), InterruptAction::PageFault);
    assert_eq!(interrupt_action(&regs(13)), InterruptAction::GeneralProtection { rip: 0xabc });
    assert_eq!(interrupt_action(&regs(0x80)), InterruptAction::Syscall);
    assert_eq!(interrupt_action(&regs(6)), InterruptAction::Unknown { number: 6 });
}

#[test]
fn malloc_blocks_do_not_overlap() {
    let mut last: usize = 0x2003;
    let a = malloc(&mut last, 21);
    let b = malloc(&mut last, 7);
    let c = malloc(&mut last, 1);
    assert!(a + 21 <= b);
    assert!(b + 7 <= c);
    assert_eq!((a, b, c), (0x2003, 0x2020, 0x202e));
}
