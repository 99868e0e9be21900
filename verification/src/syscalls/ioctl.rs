//! `ioctl`: only the terminal size request is known.
use vstd::prelude::*;

verus! {

/// Request for the terminal window size.
pub const TIOCGWINSZ: u64 = 0x5413;

/// The terminal window size as `TIOCGWINSZ` fills it.
#[derive(Clone, Copy, Debug, PartialEq, Eq, Structural)]
pub struct Winsize {
    pub ws_row: u16,
    pub ws_col: u16,
    pub ws_xpixel: u16,
    pub ws_ypixel: u16,
}

/// Answers `TIOCGWINSZ` with 25 rows and 80 columns, leaving the pixel
/// sizes as they are.
pub fn ioctl(fd: u64, request: u64, winsize: &mut Winsize) -> (r: u64)
    requires
        request == TIOCGWINSZ,
    ensures
        r == 0,
        *final(winsize) == (Winsize { ws_row: 25, ws_col: 80, ..*old(winsize) }),
{
    winsize.ws_row = 25;
    winsize.ws_col = 80;
    0
}

} // verus!
