//! The two chained 8259 interrupt controllers: what to write to them, and
//! where each interrupt line lives.
use vstd::prelude::*;

verus! {

pub const PORT_PIC_MASTER_COMMAND: u16 = 0x20;
pub const PORT_PIC_SLAVE_COMMAND: u16 = 0xA0;
/// The port written to wait for an I/O operation to settle.
pub const PORT_IO_WAIT: u16 = 0x80;
/// End of interrupt.
pub const COMMAND_EOI: u8 = 0x20;

pub const ICW1_NONE: u8 = 0b0000_0000;
pub const ICW1_ICW4: u8 = 0b0000_0001;
pub const ICW1_SINGLE: u8 = 0b0000_0010;
pub const ICW1_INTERVAL4: u8 = 0b0000_0100;
pub const ICW1_LEVEL: u8 = 0b0000_1000;
pub const ICW1_INIT: u8 = 0b0001_0000;

/// One controller: its command port and, right after it, its data port.
#[derive(Clone, Copy, Debug, PartialEq, Eq, Structural)]
pub struct Pic {
    pub cmd: u16,
    pub data: u16,
}

/// Which controller.
#[derive(Clone, Copy, Debug, PartialEq, Eq, Structural)]
pub enum PicId {
    Master,
    Slave,
}

/// An interrupt line: its controller and its line on that controller.
#[derive(Clone, Copy, Debug, PartialEq, Eq, Structural)]
pub struct IrqLine {
    pub pic: PicId,
    pub line: u8,
}

impl Pic {
    pub fn new(cmd_port: u16) -> (p: Pic)
        requires
            cmd_port < 0xFFFF,
        ensures
            p.cmd == cmd_port,
            p.data == cmd_port + 1,
    {
        Pic { cmd: cmd_port, data: cmd_port + 1 }
    }

    /// The mask with line `irq` masked.
    pub fn mask_set(mask: u8, irq: u8) -> (r: u8)
        requires
            irq < 8,
        ensures
            r == mask | (1u8 << irq),
    {
        mask | (1u8 << irq)
    }

    /// The mask with line `irq` unmasked.
    pub fn mask_clear(mask: u8, irq: u8) -> (r: u8)
        requires
            irq < 8,
        ensures
            r == mask & !(1u8 << irq),
    {
        mask & !(1u8 << irq)
    }
}

/// Masking a line and unmasking it again leaves the other lines as they
/// were and the line unmasked; masking sets exactly that line's bit.
pub proof fn lemma_mask_roundtrip(mask: u8, irq: u8)
    requires
        irq < 8,
    ensures
        (mask | (1u8 << irq)) & !(1u8 << irq) == mask & !(1u8 << irq),
        (mask | (1u8 << irq)) & (1u8 << irq) != 0,
        (mask & !(1u8 << irq)) & (1u8 << irq) == 0,
        forall|j: u8|
            j < 8 && j != irq ==> ((mask | (1u8 << irq)) & (1u8 << j)) == (mask & (1u8 << j)),
{
    assert((mask | (1u8 << irq)) & !(1u8 << irq) == mask & !(1u8 << irq) && (mask | (1u8 << irq))
        & (1u8 << irq) != 0 && (mask & !(1u8 << irq)) & (1u8 << irq) == 0) by (bit_vector)
        requires
            irq < 8,
    ;
    assert forall|j: u8| j < 8 && j != irq implies ((mask | (1u8 << irq)) & (1u8 << j)) == (mask & (
    1u8 << j)) by {
        assert(((mask | (1u8 << irq)) & (1u8 << j)) == (mask & (1u8 << j))) by (bit_vector)
            requires
                j < 8,
                irq < 8,
                j != irq,
        ;
    }
}

/// The line that interrupt `irq` arrives on: 0..8 on the master, 8..16 on
/// the slave.
pub open spec fn spec_irq_line(irq: u8) -> IrqLine {
    if irq < 8 {
        IrqLine { pic: PicId::Master, line: irq }
    } else {
        IrqLine { pic: PicId::Slave, line: (irq - 8) as u8 }
    }
}

/// Acknowledging interrupt `irq`: the line to unmask again.
pub fn ack(irq: u8) -> (r: IrqLine)
    requires
        irq < 16,
    ensures
        r == spec_irq_line(irq),
        r.line < 8,
{
    if irq < 8 {
        IrqLine { pic: PicId::Master, line: irq }
    } else {
        IrqLine { pic: PicId::Slave, line: irq - 8 }
    }
}

/// One step of handling an interrupt on the controllers.
#[derive(Clone, Copy, Debug, PartialEq, Eq, Structural)]
pub enum PicStep {
    /// Read the controller's mask, set the line's bit, write it back.
    MaskSet { pic: PicId, line: u8 },
    /// Send end of interrupt to the controller.
    Eoi { pic: PicId },
}

/// The steps that handle interrupt `irq`: its line is masked, then every
/// controller it passed through gets an end of interrupt, the master first.
pub open spec fn spec_irq_steps(irq: u8) -> Seq<PicStep> {
    let l = spec_irq_line(irq);
    if irq < 8 {
        seq![PicStep::MaskSet { pic: l.pic, line: l.line }, PicStep::Eoi { pic: PicId::Master }]
    } else {
        seq![
            PicStep::MaskSet { pic: l.pic, line: l.line },
            PicStep::Eoi { pic: PicId::Master },
            PicStep::Eoi { pic: PicId::Slave },
        ]
    }
}

/// Handling interrupt `irq` (0 to 15): mask its line, then end the interrupt
/// on the master and, for a slave line, on the slave too.
pub fn handle_irq(irq: u8) -> (steps: Vec<PicStep>)
    requires
        irq < 16,
    ensures
        steps@ == spec_irq_steps(irq),
{
    let l = ack(irq);
    let mut steps: Vec<PicStep> = Vec::new();
    steps.push(PicStep::MaskSet { pic: l.pic, line: l.line });
    steps.push(PicStep::Eoi { pic: PicId::Master });
    if irq >= 8 {
        steps.push(PicStep::Eoi { pic: PicId::Slave });
    }
    assert(steps@ =~= spec_irq_steps(irq));
    steps
}

/// Handling an interrupt masks exactly the line that acknowledging it
/// unmasks, on the same controller: applied to that controller's mask, the
/// two leave the line unmasked and every other line as it was.
pub proof fn lemma_handle_then_ack(irq: u8, mask: u8)
    requires
        irq < 16,
    ensures
        ({
            let l = spec_irq_line(irq);
            let masked = mask | (1u8 << l.line);
            let unmasked = masked & !(1u8 << l.line);
            &&& spec_irq_steps(irq)[0] == (PicStep::MaskSet { pic: l.pic, line: l.line })
            &&& l.line < 8
            &&& unmasked & (1u8 << l.line) == 0
            &&& forall|j: u8| j < 8 && j != l.line ==> (unmasked & (1u8 << j)) == (mask & (1u8 << j))
        }),
{
    let l = spec_irq_line(irq);
    let line = l.line;
    assert(line < 8);
    lemma_mask_roundtrip(mask, line);
    let masked = mask | (1u8 << line);
    assert forall|j: u8| j < 8 && j != line implies ((masked & !(1u8 << line)) & (1u8 << j)) == (
    mask & (1u8 << j)) by {
        assert(((mask | (1u8 << line)) & !(1u8 << line)) & (1u8 << j) == mask & (1u8 << j))
            by (bit_vector)
            requires
                j < 8,
                line < 8,
                j != line,
        ;
    }
}

/// Port writes that program both controllers: the initialization words one
/// to four, each followed by an I/O wait, then the saved masks back, then an
/// end of interrupt to each.
pub open spec fn init_writes(mask_master: u8, mask_slave: u8) -> Seq<(u16, u8)> {
    seq![
        (0x20u16, 0x11u8),
        (0x80u16, 0u8),
        (0xA0u16, 0x11u8),
        (0x80u16, 0u8),
        (0x21u16, 0x20u8),
        (0x80u16, 0u8),
        (0xA1u16, 0x28u8),
        (0x80u16, 0u8),
        (0x21u16, 4u8),
        (0x80u16, 0u8),
        (0xA1u16, 2u8),
        (0x80u16, 0u8),
        (0x21u16, 1u8),
        (0x80u16, 0u8),
        (0xA1u16, 1u8),
        (0x80u16, 0u8),
        (0x21u16, mask_master),
        (0xA1u16, mask_slave),
        (0x20u16, 0x20u8),
        (0xA0u16, 0x20u8),
    ]
}

/// The port writes that initialize the controllers, given the masks read
/// from them beforehand: vectors 0x20.. for the master and 0x28.. for the
/// slave, the slave on line 2, 8086 mode, the masks kept.
pub fn init(mask_master: u8, mask_slave: u8) -> (w: Vec<(u16, u8)>)
    ensures
        w@ == init_writes(mask_master, mask_slave),
{
    let master = Pic::new(PORT_PIC_MASTER_COMMAND);
    let slave = Pic::new(PORT_PIC_SLAVE_COMMAND);
    let mut w: Vec<(u16, u8)> = Vec::new();
    w.push((master.cmd, ICW1_ICW4 | ICW1_INIT));
    w.push((PORT_IO_WAIT, 0));
    w.push((slave.cmd, ICW1_ICW4 | ICW1_INIT));
    w.push((PORT_IO_WAIT, 0));
    w.push((master.data, 0x20));
    w.push((PORT_IO_WAIT, 0));
    w.push((slave.data, 0x28));
    w.push((PORT_IO_WAIT, 0));
    w.push((master.data, 4));
    w.push((PORT_IO_WAIT, 0));
    w.push((slave.data, 2));
    w.push((PORT_IO_WAIT, 0));
    w.push((master.data, 1));
    w.push((PORT_IO_WAIT, 0));
    w.push((slave.data, 1));
    w.push((PORT_IO_WAIT, 0));
    w.push((master.data, mask_master));
    w.push((slave.data, mask_slave));
    w.push((master.cmd, COMMAND_EOI));
    w.push((slave.cmd, COMMAND_EOI));
    assert(ICW1_ICW4 | ICW1_INIT == 0x11) by (bit_vector);
    assert(w@ =~= init_writes(mask_master, mask_slave));
    w
}


/// Lines 0 to 7 are on the master, 8 to 15 on the slave, as line `irq mod 8`.
/// Handling a line masks it on its own controller and ends the interrupt on
/// the master, first, and then on the slave exactly when the line is the
/// slave's: two steps for a master line, three for a slave line.
pub proof fn lemma_handle_irq_steps(irq: u8)
    requires
        irq < 16,
    ensures
        irq < 8 ==> spec_irq_line(irq) == (IrqLine { pic: PicId::Master, line: irq }),
        irq >= 8 ==> spec_irq_line(irq) == (IrqLine { pic: PicId::Slave, line: (irq - 8) as u8 }),
        spec_irq_line(irq).line == irq % 8,
        spec_irq_steps(irq)[0] == (PicStep::MaskSet {
            pic: spec_irq_line(irq).pic,
            line: spec_irq_line(irq).line,
        }),
        spec_irq_steps(irq)[1] == (PicStep::Eoi { pic: PicId::Master }),
        spec_irq_steps(irq).contains(PicStep::Eoi { pic: PicId::Slave }) <==> irq >= 8,
        spec_irq_steps(irq).contains(PicStep::Eoi { pic: PicId::Slave }) <==> spec_irq_line(irq).pic
            == PicId::Slave,
        irq < 8 ==> spec_irq_steps(irq).len() == 2,
        irq >= 8 ==> spec_irq_steps(irq).len() == 3 && spec_irq_steps(irq)[2] == (PicStep::Eoi {
            pic: PicId::Slave,
        }),
{
    let st = spec_irq_steps(irq);
    if irq >= 8 {
        assert(st[2] == PicStep::Eoi { pic: PicId::Slave });
    } else {
        assert forall|j: int| 0 <= j < st.len() implies st[j] != (PicStep::Eoi {
            pic: PicId::Slave,
        }) by {}
    }
}

/// Initializing the controllers keeps the masks they had: whatever the
/// masks read before, the master's is written back to its data port (0x21)
/// and the slave's to its data port (0xA1), after the four initialization
/// words, and no later write goes to those ports, so each controller ends
/// with its old mask; nothing else in the sequence depends on the masks.
pub proof fn lemma_init_restores_masks(mask_master: u8, mask_slave: u8, other_master: u8, other_slave: u8)
    ensures
        init_writes(mask_master, mask_slave).len() == 20,
        init_writes(mask_master, mask_slave)[16] == (0x21u16, mask_master),
        init_writes(mask_master, mask_slave)[17] == (0xA1u16, mask_slave),
        forall|i: int|
            0 <= i < 20 && i != 16 && i != 17 ==> #[trigger] init_writes(mask_master, mask_slave)[i]
                == init_writes(other_master, other_slave)[i],
        forall|i: int|
            16 < i < 20 ==> (#[trigger] init_writes(mask_master, mask_slave)[i]).0 != 0x21u16,
        forall|i: int|
            17 < i < 20 ==> (#[trigger] init_writes(mask_master, mask_slave)[i]).0 != 0xA1u16,
{
}


/// The initialization sequence: each controller gets ICW1 (initialize, ICW4
/// follows) on its command port, then on its data port its vector base (32
/// for the master, so lines 0 to 7 raise vectors 32 to 39, and 40 for the
/// slave), the cascade wiring (the slave on the master's line 2, and the
/// slave's identity 2) and 8086 mode; every initialization word is followed
/// by a write to the wait port. The sequence ends with an end of interrupt to
/// each controller.
pub proof fn lemma_init_sequence(mask_master: u8, mask_slave: u8)
    ensures
        ({
            let w = init_writes(mask_master, mask_slave);
            &&& w[0] == (PORT_PIC_MASTER_COMMAND, ICW1_INIT | ICW1_ICW4)
            &&& w[2] == (PORT_PIC_SLAVE_COMMAND, ICW1_INIT | ICW1_ICW4)
            &&& w[4] == ((PORT_PIC_MASTER_COMMAND + 1) as u16, 32u8)
            &&& w[6] == ((PORT_PIC_SLAVE_COMMAND + 1) as u16, 40u8)
            &&& w[8] == ((PORT_PIC_MASTER_COMMAND + 1) as u16, 1u8 << 2u8)
            &&& w[10] == ((PORT_PIC_SLAVE_COMMAND + 1) as u16, 2u8)
            &&& w[12] == ((PORT_PIC_MASTER_COMMAND + 1) as u16, 1u8)
            &&& w[14] == ((PORT_PIC_SLAVE_COMMAND + 1) as u16, 1u8)
            &&& forall|k: int| 0 <= k < 8 ==> #[trigger] w[2 * k + 1] == (PORT_IO_WAIT, 0u8)
            &&& w[18] == (PORT_PIC_MASTER_COMMAND, COMMAND_EOI)
            &&& w[19] == (PORT_PIC_SLAVE_COMMAND, COMMAND_EOI)
        }),
{
    assert(ICW1_INIT | ICW1_ICW4 == 0x11) by (bit_vector);
    assert(1u8 << 2u8 == 4) by (bit_vector);
    let w = init_writes(mask_master, mask_slave);
    assert forall|k: int| 0 <= k < 8 implies #[trigger] w[2 * k + 1] == (PORT_IO_WAIT, 0u8) by {
        assert(k == 0 || k == 1 || k == 2 || k == 3 || k == 4 || k == 5 || k == 6 || k == 7);
    }
}

} // verus!
