//! The global descriptor table: null, kernel code and kernel data segments.
use vstd::prelude::*;

verus! {

/// One segment descriptor.
#[derive(Clone, Copy, Debug, PartialEq, Eq, Structural)]
pub struct GdtEntry {
    pub limit_low: u16,
    pub base_low: u16,
    pub base_middle: u8,
    pub access: u8,
    pub granularity: u8,
    pub base_high: u8,
}

/// A descriptor with base 0, the given access byte and granularity/limit
/// flags.
pub open spec fn segment(limit_low: u16, access: u8, granularity: u8) -> GdtEntry {
    GdtEntry { limit_low, base_low: 0, base_middle: 0, access, granularity, base_high: 0 }
}

/// The table: the null descriptor, then 64-bit kernel code (access 0x9A) and
/// kernel data (access 0x92).
pub fn gdt_entries() -> (r: [GdtEntry; 3])
    ensures
        r@ == seq![segment(0, 0, 0), segment(0xFFFF, 0x9A, 0xAF), segment(0xFFFF, 0x92, 0xAF)],
{
    let r = [
        GdtEntry {
            limit_low: 0,
            base_low: 0,
            base_middle: 0,
            access: 0,
            granularity: 0,
            base_high: 0,
        },
        GdtEntry {
            limit_low: 0xFFFF,
            base_low: 0,
            base_middle: 0,
            access: 0x9A,
            granularity: 0xAF,
            base_high: 0,
        },
        GdtEntry {
            limit_low: 0xFFFF,
            base_low: 0,
            base_middle: 0,
            access: 0x92,
            granularity: 0xAF,
            base_high: 0,
        },
    ];
    assert(r@ =~= seq![
        segment(0, 0, 0),
        segment(0xFFFF, 0x9A, 0xAF),
        segment(0xFFFF, 0x92, 0xAF),
    ]);
    r
}

} // verus!
