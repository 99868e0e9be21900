//! The programmable interval timer.
use vstd::prelude::*;

verus! {

pub const PORT_PIT_COMMAND: u16 = 0x43;
pub const PORT_PIT_CHANNEL0: u16 = 0x40;
/// Channel 0, low byte then high byte, mode 3 (square wave).
pub const PIT_MODE: u8 = 0x36;

/// Port writes that start channel 0 with reload value `divisor`: the mode,
/// then the low and the high byte of the divisor.
pub fn init_writes(divisor: u16) -> (w: [(u16, u8); 3])
    ensures
        w@ == seq![
            (PORT_PIT_COMMAND, PIT_MODE),
            (PORT_PIT_CHANNEL0, (divisor & 0xff) as u8),
            (PORT_PIT_CHANNEL0, (divisor >> 8u16) as u8),
        ],
        (divisor >> 8u16) as u8 as int * 256 + (divisor & 0xff) as u8 as int == divisor,
{
    let select_chan0: u8 = 0;
    let lohi: u8 = 0x30;
    let mode = select_chan0 | lohi | 6;
    assert(select_chan0 | lohi | 6u8 == 0x36) by (bit_vector)
        requires
            select_chan0 == 0,
            lohi == 0x30,
    ;
    let w = [
        (PORT_PIT_COMMAND, mode),
        (PORT_PIT_CHANNEL0, (divisor & 0xff) as u8),
        (PORT_PIT_CHANNEL0, (divisor >> 8u16) as u8),
    ];
    assert((divisor >> 8u16) as u8 as u16 * 256 + (divisor & 0xff) as u8 as u16 == divisor) by (bit_vector);
    assert(w@ =~= seq![
        (PORT_PIT_COMMAND, PIT_MODE),
        (PORT_PIT_CHANNEL0, (divisor & 0xff) as u8),
        (PORT_PIT_CHANNEL0, (divisor >> 8u16) as u8),
    ]);
    w
}

} // verus!
