//! 8259 programmable interrupt controllers: remapping IRQ0-15 to vectors
//! 32-47 and acknowledging interrupts.
use vstd::prelude::*;

verus! {

pub const PIC1_COMMAND: u16 = 0x20;

pub const PIC1_DATA: u16 = 0x21;

pub const PIC2_COMMAND: u16 = 0xA0;

pub const PIC2_DATA: u16 = 0xA1;

pub const ICW1_INIT: u8 = 0x10;

pub const ICW1_ICW4: u8 = 0x01;

pub const ICW4_8086: u8 = 0x01;

/// IRQ0-7 go to vectors 32-39.
pub const PIC1_OFFSET: u8 = 32;

/// IRQ8-15 go to vectors 40-47.
pub const PIC2_OFFSET: u8 = 40;

/// Port written to give the controllers time between commands.
pub const WAIT_PORT: u16 = 0x80;

/// End-of-interrupt command.
pub const EOI: u8 = 0x20;

/// The port writes that remap both controllers and then mask every IRQ but
/// IRQ1 (keyboard), each command followed by a wait write.
pub open spec fn init_sequence_spec() -> Seq<(u16, u8)> {
    seq![
        (PIC1_COMMAND, ICW1_INIT | ICW1_ICW4),
        (WAIT_PORT, 0u8),
        (PIC2_COMMAND, ICW1_INIT | ICW1_ICW4),
        (WAIT_PORT, 0u8),
        (PIC1_DATA, PIC1_OFFSET),
        (WAIT_PORT, 0u8),
        (PIC2_DATA, PIC2_OFFSET),
        (WAIT_PORT, 0u8),
        (PIC1_DATA, 4u8),
        (WAIT_PORT, 0u8),
        (PIC2_DATA, 2u8),
        (WAIT_PORT, 0u8),
        (PIC1_DATA, ICW4_8086),
        (WAIT_PORT, 0u8),
        (PIC2_DATA, ICW4_8086),
        (WAIT_PORT, 0u8),
        (PIC1_DATA, 0xFDu8),
        (PIC2_DATA, 0xFFu8),
    ]
}

/// The port writes of the controllers' initialisation, in order.
pub fn init_sequence() -> (r: Vec<(u16, u8)>)
    ensures
        r@ == init_sequence_spec(),
{
    let r = vec![
        (PIC1_COMMAND, ICW1_INIT | ICW1_ICW4),
        (WAIT_PORT, 0u8),
        (PIC2_COMMAND, ICW1_INIT | ICW1_ICW4),
        (WAIT_PORT, 0u8),
        (PIC1_DATA, PIC1_OFFSET),
        (WAIT_PORT, 0u8),
        (PIC2_DATA, PIC2_OFFSET),
        (WAIT_PORT, 0u8),
        (PIC1_DATA, 4u8),
        (WAIT_PORT, 0u8),
        (PIC2_DATA, 2u8),
        (WAIT_PORT, 0u8),
        (PIC1_DATA, ICW4_8086),
        (WAIT_PORT, 0u8),
        (PIC2_DATA, ICW4_8086),
        (WAIT_PORT, 0u8),
        (PIC1_DATA, 0xFDu8),
        (PIC2_DATA, 0xFFu8),
    ];
    assert(r@ =~= init_sequence_spec());
    r
}

/// The port writes that acknowledge `irq`: the secondary controller too for
/// IRQ 8 and above, then the primary one.
pub fn eoi_sequence(irq: u8) -> (r: Vec<(u16, u8)>)
    ensures
        irq >= 8 ==> r@ == seq![(PIC2_COMMAND, EOI), (PIC1_COMMAND, EOI)],
        irq < 8 ==> r@ == seq![(PIC1_COMMAND, EOI)],
{
    let mut r: Vec<(u16, u8)> = Vec::new();
    if irq >= 8 {
        r.push((PIC2_COMMAND, EOI));
    }
    r.push((PIC1_COMMAND, EOI));
    proof {
        if irq >= 8 {
            assert(r@ =~= seq![(PIC2_COMMAND, EOI), (PIC1_COMMAND, EOI)]);
        } else {
            assert(r@ =~= seq![(PIC1_COMMAND, EOI)]);
        }
    }
    r
}

} // verus!
