use kermit::apic::{ack, handle_irq, init, IrqLine, Pic, PicId, PicStep};
use kermit::pit::init_writes;

#[test]
fn pic_ports() {
    assert_eq!(Pic::new(0x20), Pic { cmd: 0x20, data: 0x21 });
    assert_eq!(Pic::new(0xA0), Pic { cmd: 0xA0, data: 0xA1 });
}

#[test]
fn masks() {
    assert_eq!(Pic::mask_set(0b0000_0001, 3), 0b0000_1001);
    assert_eq!(Pic::mask_set(0b0000_1000, 3), 0b0000_1000);
    assert_eq!(Pic::mask_clear(0b1111_1111, 7), 0b0111_1111);
    assert_eq!(Pic::mask_clear(Pic::mask_set(0b0101_0000, 2), 2), 0b0101_0000);
}

#[test]
fn ack_picks_the_controller() {
    assert_eq!(ack(1), IrqLine { pic: PicId::Master, line: 1 });
    assert_eq!(ack(7), IrqLine { pic: PicId::Master, line: 7 });
    assert_eq!(ack(8), IrqLine { pic: PicId::Slave, line: 0 });
    assert_eq!(ack(15), IrqLine { pic: PicId::Slave, line: 7 });
}

#[test]
fn init_sequence() {
    let w = init(0xAB, 0xCD);
    assert_eq!(
        w,
        vec![
            (0x20, 0x11), (0x80, 0), (0xA0, 0x11), (0x80, 0),
            (0x21, 0x20), (0x80, 0), (0xA1, 0x28), (0x80, 0),
            (0x21, 4), (0x80, 0), (0xA1, 2), (0x80, 0),
            (0x21, 1), (0x80, 0), (0xA1, 1), (0x80, 0),
            (0x21, 0xAB), (0xA1, 0xCD),
            (0x20, 0x20), (0xA0, 0x20),
        ]
    );
}

#[test]
fn pit_programming() {
    // 1193182 Hz / 100 Hz
    assert_eq!(init_writes(11931), [(0x43, 0x36), (0x40, 0x9B), (0x40, 0x2E)]);
}

#[test]
fn handling_a_master_line() {
    assert_eq!(
        handle_irq(3),
        vec![PicStep::MaskSet { pic: PicId::Master, line: 3 }, PicStep::Eoi { pic: PicId::Master }]
    );
}

#[test]
fn handling_a_slave_line_ends_it_on_both() {
    assert_eq!(
        handle_irq(12),
        vec![
            PicStep::MaskSet { pic: PicId::Slave, line: 4 },
            PicStep::Eoi { pic: PicId::Master },
            PicStep::Eoi { pic: PicId::Slave },
        ]
    );
}

#[test]
fn handle_then_ack_restores_the_line() {
    let mask: u8 = 0b1000_0001;
    let steps = handle_irq(13);
    let line = match steps[0] {
        PicStep::MaskSet { pic: PicId::Slave, line } => line,
        _ => panic!("expected a slave mask step"),
    };
    let masked = Pic::mask_set(mask, line);
    assert_eq!(line, 5);
    assert_eq!(masked, 0b1010_0001);
    let l = ack(13);
    assert_eq!(l, IrqLine { pic: PicId::Slave, line });
    assert_eq!(Pic::mask_clear(masked, l.line), 0b1000_0001);
}
