//! x86_64 page-table entries and tables.
use vstd::prelude::*;

verus! {

pub const ENTRY_COUNT: usize = 512;

pub const PAGE_SIZE: usize = 4096;

/// Bits 12 to 51 of an entry: the physical frame address.
pub const ADDR_MASK: u64 = 0x000f_ffff_ffff_f000;

/// The page is mapped.
pub const PRESENT: u64 = 1;

/// The page may be written.
pub const WRITABLE: u64 = 2;

/// The page is reachable from user mode.
pub const USER: u64 = 4;

/// The entry maps a large page.
pub const HUGE_PAGE: u64 = 128;

/// Code on the page may not run.
pub const NO_EXECUTE: u64 = 0x8000_0000_0000_0000;

/// Every flag bit that has a name.
pub const ALL_FLAGS: u64 = PRESENT | WRITABLE | USER | HUGE_PAGE | NO_EXECUTE;

/// A set of the named flag bits of a page-table entry.
#[derive(Clone, Copy, Debug, PartialEq, Eq, Structural)]
pub struct PageFlags {
    bits: u64,
}

impl PageFlags {
    /// The bits of the set.
    pub closed spec fn spec_bits(self) -> u64 {
        self.bits
    }

    /// Only named flag bits are set.
    pub closed spec fn wf(self) -> bool {
        self.bits & !ALL_FLAGS == 0
    }

    /// No flag.
    pub fn empty() -> (r: PageFlags)
        ensures
            r.spec_bits() == 0,
            r.wf(),
    {
        assert(0u64 & !ALL_FLAGS == 0) by (bit_vector);
        PageFlags { bits: 0 }
    }

    /// The named flags among `bits`; other bits are dropped.
    pub fn from_bits_truncate(bits: u64) -> (r: PageFlags)
        ensures
            r.spec_bits() == bits & ALL_FLAGS,
            r.wf(),
    {
        assert((bits & ALL_FLAGS) & !ALL_FLAGS == 0) by (bit_vector);
        PageFlags { bits: bits & ALL_FLAGS }
    }

    /// The flags of both sets.
    pub fn union(self, other: PageFlags) -> (r: PageFlags)
        requires
            self.wf(),
            other.wf(),
        ensures
            r.spec_bits() == self.spec_bits() | other.spec_bits(),
            r.wf(),
    {
        let a = self.bits;
        let b = other.bits;
        assert((a | b) & !ALL_FLAGS == 0) by (bit_vector)
            requires
                a & !ALL_FLAGS == 0,
                b & !ALL_FLAGS == 0,
        ;
        PageFlags { bits: a | b }
    }

    /// Every flag of `other` is in this set.
    pub fn contains(self, other: PageFlags) -> (r: bool)
        ensures
            r == (self.spec_bits() & other.spec_bits() == other.spec_bits()),
    {
        self.bits & other.bits == other.bits
    }

    /// The bits of the set.
    pub fn bits(self) -> (r: u64)
        ensures
            r == self.spec_bits(),
    {
        self.bits
    }
}

/// One entry of a page table: a frame address and flag bits.
#[derive(Clone, Copy, Debug, PartialEq, Eq, Structural)]
pub struct PageTableEntry(u64);

impl View for PageTableEntry {
    type V = u64;

    closed spec fn view(&self) -> u64 {
        self.0
    }
}

impl PageTableEntry {
    /// An entry that maps nothing.
    pub fn empty() -> (r: Self)
        ensures
            r@ == 0,
    {
        PageTableEntry(0)
    }

    /// Points the entry at the frame of `addr` with `flags`.
    pub fn set(&mut self, addr: u64, flags: PageFlags)
        ensures
            final(self)@ == (addr & ADDR_MASK) | flags.spec_bits(),
    {
        self.0 = (addr & ADDR_MASK) | flags.bits();
    }

    /// The entry maps a page.
    pub fn is_present(&self) -> (r: bool)
        ensures
            r == (self@ & PRESENT != 0),
    {
        self.0 & PRESENT != 0
    }

    /// The frame address of the entry.
    pub fn addr(&self) -> (r: u64)
        ensures
            r == self@ & ADDR_MASK,
    {
        self.0 & ADDR_MASK
    }
}

/// A page table: 512 entries.
pub struct PageTable {
    entries: [PageTableEntry; 512],
}

impl View for PageTable {
    type V = Seq<PageTableEntry>;

    closed spec fn view(&self) -> Seq<PageTableEntry> {
        self.entries@
    }
}

impl PageTable {
    /// A table of 512 empty entries.
    pub fn new() -> (r: Self)
        ensures
            r@.len() == ENTRY_COUNT,
            forall|i: int| 0 <= i < ENTRY_COUNT ==> #[trigger] r@[i]@ == 0,
    {
        PageTable { entries: [PageTableEntry(0); 512] }
    }
}

/// Nothing to set up yet: the boot code's page tables stay in use.
pub fn init() {
}

/// An entry set to a frame reads back that frame's address, whatever the
/// flags.
pub proof fn law_set_then_addr(addr: u64, flags: PageFlags)
    requires
        flags.wf(),
    ensures
        ((addr & ADDR_MASK) | flags.spec_bits()) & ADDR_MASK == addr & ADDR_MASK,
{
    let f = flags.spec_bits();
    assert(((addr & ADDR_MASK) | f) & ADDR_MASK == addr & ADDR_MASK) by (bit_vector)
        requires
            f & !ALL_FLAGS == 0,
    ;
}

/// An entry set with `flags` is present exactly when the flags hold
/// `PRESENT`.
pub proof fn law_set_then_present(addr: u64, flags: PageFlags)
    requires
        flags.wf(),
    ensures
        (((addr & ADDR_MASK) | flags.spec_bits()) & PRESENT != 0) == (flags.spec_bits() & PRESENT
            != 0),
{
    let f = flags.spec_bits();
    assert((((addr & ADDR_MASK) | f) & PRESENT != 0) == (f & PRESENT != 0)) by (bit_vector);
}

} // verus!
