//! 16550 UART on COM1: its initialisation and transmit handshake.
use vstd::prelude::*;

verus! {

pub const COM1: u16 = 0x3F8;

/// The serial port on COM1.
pub struct SerialPort;

/// The port writes that set up COM1: interrupts off, 38400 baud, 8N1,
/// FIFO on, IRQs and RTS/DSR set.
pub open spec fn init_sequence_spec() -> Seq<(u16, u8)> {
    seq![
        ((COM1 + 1) as u16, 0x00u8),
        ((COM1 + 3) as u16, 0x80u8),
        (COM1, 0x03u8),
        ((COM1 + 1) as u16, 0x00u8),
        ((COM1 + 3) as u16, 0x03u8),
        ((COM1 + 2) as u16, 0xC7u8),
        ((COM1 + 4) as u16, 0x0Bu8),
    ]
}

impl SerialPort {
    /// The port writes of the initialisation, in order.
    pub fn init_sequence() -> (r: Vec<(u16, u8)>)
        ensures
            r@ == init_sequence_spec(),
    {
        let r = vec![
            (COM1 + 1, 0x00u8),
            (COM1 + 3, 0x80u8),
            (COM1 + 0, 0x03u8),
            (COM1 + 1, 0x00u8),
            (COM1 + 3, 0x03u8),
            (COM1 + 2, 0xC7u8),
            (COM1 + 4, 0x0Bu8),
        ];
        assert(r@ =~= init_sequence_spec());
        r
    }

    /// The transmit buffer is empty (line status bit 5), so a byte may be sent.
    pub fn transmit_ready(line_status: u8) -> (r: bool)
        ensures
            r == (line_status % 64 >= 32),
    {
        assert((line_status & 0x20 != 0) == (line_status % 64 >= 32)) by (bit_vector);
        line_status & 0x20 != 0
    }
}

} // verus!
