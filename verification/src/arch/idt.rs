//! 64-bit interrupt descriptor table entries.
use vstd::prelude::*;

verus! {

pub const IDT_ENTRIES: usize = 256;

/// Interrupt vector of the keyboard (IRQ1 after remapping).
pub const KEYBOARD_VECTOR: usize = 33;

/// Kernel code segment selector: the second GDT entry.
pub const CODE_SELECTOR: u16 = 0x08;

/// One gate of the interrupt descriptor table.
#[derive(Clone, Copy, Debug, PartialEq, Eq, Structural)]
pub struct IdtEntry {
    pub offset_low: u16,
    pub selector: u16,
    pub ist: u8,
    pub type_attr: u8,
    pub offset_mid: u16,
    pub offset_high: u32,
    pub zero: u32,
}

/// The handler address a gate points to.
pub open spec fn handler_address(e: IdtEntry) -> int {
    e.offset_low + e.offset_mid * 0x1_0000 + e.offset_high * 0x1_0000_0000
}

impl IdtEntry {
    /// A gate that is not present.
    pub fn missing() -> (r: Self)
        ensures
            r == (IdtEntry {
                offset_low: 0,
                selector: 0,
                ist: 0,
                type_attr: 0,
                offset_mid: 0,
                offset_high: 0,
                zero: 0,
            }),
    {
        IdtEntry {
            offset_low: 0,
            selector: 0,
            ist: 0,
            type_attr: 0,
            offset_mid: 0,
            offset_high: 0,
            zero: 0,
        }
    }

    /// Makes this a present ring-0 64-bit interrupt gate to `handler` in the
    /// code segment `selector`.
    pub fn set_handler(&mut self, handler: u64, selector: u16)
        ensures
            final(self).offset_low == handler % 0x1_0000,
            final(self).offset_mid == (handler / 0x1_0000) % 0x1_0000,
            final(self).offset_high == handler / 0x1_0000_0000,
            final(self).selector == selector,
            final(self).ist == 0,
            final(self).type_attr == 0x8E,
            final(self).zero == 0,
            handler_address(*final(self)) == handler,
    {
        assert(handler as u16 == handler % 0x1_0000) by (bit_vector);
        assert((handler >> 16u64) as u16 == (handler / 0x1_0000) % 0x1_0000) by (bit_vector);
        assert((handler >> 32u64) as u32 == handler / 0x1_0000_0000) by (bit_vector);
        self.offset_low = handler as u16;
        self.offset_mid = (handler >> 16u64) as u16;
        self.offset_high = (handler >> 32u64) as u32;
        self.selector = selector;
        self.ist = 0;
        self.type_attr = 0x8E;
        self.zero = 0;
        assert(handler % 0x1_0000 + ((handler / 0x1_0000) % 0x1_0000) * 0x1_0000 + (handler
            / 0x1_0000_0000) * 0x1_0000_0000 == handler) by (bit_vector);
    }
}

} // verus!
