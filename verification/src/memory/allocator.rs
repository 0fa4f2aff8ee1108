//! The kernel heap: a bump allocator over a fixed region.
use vstd::prelude::*;
use vstd::arithmetic::power2::pow2;
use vstd::bits::low_bits_mask;

verus! {

/// Where the heap starts in the kernel's address space (an x86_64 address).
pub const HEAP_START: u64 = 0x_4444_4444_0000;

/// 100 KiB.
pub const HEAP_SIZE: u64 = 102400;

/// `n` is a power of two that `usize` can hold.
pub open spec fn is_pow2(n: usize) -> bool {
    exists|k: nat| k < usize::BITS && n == pow2(k)
}

/// The smallest multiple of `align` that is at least `addr`.
pub open spec fn align_up_spec(addr: int, align: int) -> int {
    if addr % align == 0 {
        addr
    } else {
        addr + (align - addr % align)
    }
}

proof fn lemma_align_up_bits(addr: usize, align: usize, k: nat)
    requires
        k < usize::BITS,
        align == pow2(k),
        addr + align - 1 <= usize::MAX,
    ensures
        ((addr + align - 1) as usize & !((align - 1) as usize)) as int == align_up_spec(
            addr as int,
            align as int,
        ),
{
    vstd::arithmetic::power2::lemma_pow2_pos(k);
    let x = (addr + align - 1) as usize;
    let m = (align - 1) as usize;
    vstd::bits::lemma_usize_low_bits_mask_is_mod(x, k);
    assert(m == low_bits_mask(k) as usize);
    assert(x & !m == x - (x & m)) by (bit_vector);
    assert(align_up_spec(addr as int, align as int) == x - x % align) by {
        vstd::arithmetic::div_mod::lemma_fundamental_div_mod(addr as int, align as int);
        vstd::arithmetic::div_mod::lemma_fundamental_div_mod(x as int, align as int);
        let q = addr as int / align as int;
        let r = addr as int % align as int;
        if r == 0 {
            assert(x as int == q * align + (align - 1));
            vstd::arithmetic::div_mod::lemma_fundamental_div_mod_converse(
                x as int,
                align as int,
                q,
                align - 1,
            );
        } else {
            assert(x as int == (q + 1) * align + (r - 1)) by (nonlinear_arith)
                requires
                    x as int == addr + align - 1,
                    addr as int == align * q + r,
            ;
            vstd::arithmetic::div_mod::lemma_fundamental_div_mod_converse(
                x as int,
                align as int,
                q + 1,
                r - 1,
            );
        }
    }
}

/// Rounds `addr` up to a multiple of the power of two `align`.
pub fn align_up(addr: usize, align: usize) -> (r: usize)
    requires
        is_pow2(align),
        addr + align <= usize::MAX,
    ensures
        r == align_up_spec(addr as int, align as int),
{
    proof {
        let k = choose|k: nat| k < usize::BITS && align == pow2(k);
        vstd::arithmetic::power2::lemma_pow2_pos(k);
        lemma_align_up_bits(addr, align, k);
    }
    (addr + align - 1) & !(align - 1)
}

/// A bump allocator: hands out memory from `next` upward and takes it all
/// back once every allocation has been freed.
pub struct BumpAllocator {
    heap_start: usize,
    heap_end: usize,
    next: usize,
    allocations: usize,
}

/// The abstract state of a bump allocator.
pub struct BumpView {
    pub heap_start: int,
    pub heap_end: int,
    pub next: int,
    pub allocations: int,
}

impl BumpView {
    /// The heap lies at non-negative addresses and the free pointer within it.
    pub open spec fn wf(self) -> bool {
        0 <= self.heap_start <= self.next <= self.heap_end
    }
}

impl View for BumpAllocator {
    type V = BumpView;

    closed spec fn view(&self) -> BumpView {
        BumpView {
            heap_start: self.heap_start as int,
            heap_end: self.heap_end as int,
            next: self.next as int,
            allocations: self.allocations as int,
        }
    }
}

/// Outcome of an allocation of `size` bytes aligned to `align`: the new
/// state and the start address, or `None` when the block does not fit.
pub open spec fn alloc_spec(v: BumpView, size: int, align: int) -> (BumpView, Option<int>) {
    let start = align_up_spec(v.next, align);
    let end = start + size;
    if end > usize::MAX || end > v.heap_end {
        (v, None)
    } else {
        (
            BumpView {
                heap_start: v.heap_start,
                heap_end: v.heap_end,
                next: end,
                allocations: v.allocations + 1,
            },
            Some(start),
        )
    }
}

/// State after a block is freed: one allocation fewer, and the whole heap
/// free again when none is left.
pub open spec fn dealloc_spec(v: BumpView) -> BumpView {
    BumpView {
        heap_start: v.heap_start,
        heap_end: v.heap_end,
        next: if v.allocations - 1 == 0 {
            v.heap_start
        } else {
            v.next
        },
        allocations: v.allocations - 1,
    }
}

impl BumpAllocator {
    /// An allocator over an empty heap at address 0.
    pub fn new() -> (r: BumpAllocator)
        ensures
            r@ == (BumpView { heap_start: 0, heap_end: 0, next: 0, allocations: 0 }),
            r@.wf(),
    {
        BumpAllocator { heap_start: 0, heap_end: 0, next: 0, allocations: 0 }
    }

    /// Hands the allocator the heap `[heap_start, heap_start + heap_size)`.
    pub fn init(&mut self, heap_start: usize, heap_size: usize)
        requires
            heap_start + heap_size <= usize::MAX,
        ensures
            final(self)@ == (BumpView {
                heap_start: heap_start as int,
                heap_end: heap_start + heap_size,
                next: heap_start as int,
                allocations: old(self)@.allocations,
            }),
            final(self)@.wf(),
    {
        self.heap_start = heap_start;
        self.heap_end = heap_start + heap_size;
        self.next = heap_start;
    }

    /// Allocates `size` bytes aligned to `align`; the start address, or
    /// `None` when the heap has no room left.
    pub fn allocate(&mut self, size: usize, align: usize) -> (r: Option<usize>)
        requires
            is_pow2(align),
            old(self)@.next + align <= usize::MAX,
            alloc_spec(old(self)@, size as int, align as int).1 is Some ==> old(self)@.allocations
                < usize::MAX,
        ensures
            final(self)@ == alloc_spec(old(self)@, size as int, align as int).0,
            old(self)@.wf() ==> final(self)@.wf(),
            r == (match alloc_spec(old(self)@, size as int, align as int).1 {
                Some(a) => Some(a as usize),
                None => None::<usize>,
            }),
    {
        proof {
            let k = choose|k: nat| k < usize::BITS && align == pow2(k);
            vstd::arithmetic::power2::lemma_pow2_pos(k);
            lemma_align_up(self.next as int, align as int);
        }
        let alloc_start = align_up(self.next, align);
        let alloc_end = match alloc_start.checked_add(size) {
            Some(end) => end,
            None => {
                return None;
            },
        };
        if alloc_end > self.heap_end {
            None
        } else {
            self.next = alloc_end;
            self.allocations = self.allocations + 1;
            Some(alloc_start)
        }
    }

    /// Whether `allocate(size, align)` would hand out a block now.
    pub fn would_fit(&self, size: usize, align: usize) -> (r: bool)
        requires
            is_pow2(align),
            self@.next + align <= usize::MAX,
        ensures
            r == alloc_spec(self@, size as int, align as int).1 is Some,
    {
        let start = align_up(self.next, align);
        match start.checked_add(size) {
            Some(end) => end <= self.heap_end,
            None => false,
        }
    }

    /// Where the next block would start before alignment.
    pub fn next_free(&self) -> (r: usize)
        ensures
            r == self@.next,
    {
        self.next
    }

    /// How many blocks are live.
    pub fn allocations(&self) -> (r: usize)
        ensures
            r == self@.allocations,
    {
        self.allocations
    }

    /// Frees a block: counts one allocation fewer and reclaims the whole heap
    /// when the last one is gone.
    pub fn dealloc(&mut self)
        requires
            old(self)@.allocations > 0,
        ensures
            final(self)@ == dealloc_spec(old(self)@),
            old(self)@.wf() ==> final(self)@.wf(),
    {
        self.allocations = self.allocations - 1;
        if self.allocations == 0 {
            self.next = self.heap_start;
        }
    }
}

/// Basic facts about rounding up.
pub proof fn lemma_align_up(addr: int, align: int)
    requires
        addr >= 0,
        align > 0,
    ensures
        addr <= align_up_spec(addr, align) < addr + align,
        align_up_spec(addr, align) % align == 0,
{
    vstd::arithmetic::div_mod::lemma_fundamental_div_mod(addr, align);
    if addr % align != 0 {
        let q = addr / align;
        assert(align_up_spec(addr, align) == (q + 1) * align) by (nonlinear_arith)
            requires
                addr == align * q + addr % align,
                align_up_spec(addr, align) == addr + (align - addr % align),
        ;
        vstd::arithmetic::div_mod::lemma_mod_multiples_basic(q + 1, align);
    }
}

/// A block handed out is aligned, lies inside the heap above the previous
/// free pointer, and the free pointer moves to its end.
pub proof fn law_alloc_in_heap(v: BumpView, size: int, align: int)
    requires
        v.wf(),
        size >= 0,
        align > 0,
        alloc_spec(v, size, align).1 is Some,
    ensures
        ({
            let a = alloc_spec(v, size, align).1->0;
            &&& a % align == 0
            &&& v.next <= a
            &&& v.heap_start <= a
            &&& a + size <= v.heap_end
            &&& alloc_spec(v, size, align).0.next == a + size
            &&& alloc_spec(v, size, align).0.wf()
        }),
{
    lemma_align_up(v.next, align);
}

/// Two blocks handed out one after the other do not overlap.
pub proof fn law_allocations_disjoint(v: BumpView, size1: int, align1: int, size2: int, align2: int)
    requires
        v.wf(),
        size1 >= 0,
        align1 > 0,
        align2 > 0,
        alloc_spec(v, size1, align1).1 is Some,
        alloc_spec(alloc_spec(v, size1, align1).0, size2, align2).1 is Some,
    ensures
        alloc_spec(v, size1, align1).1->0 + size1 <= alloc_spec(
            alloc_spec(v, size1, align1).0,
            size2,
            align2,
        ).1->0,
{
    lemma_align_up(v.next, align1);
    let w = alloc_spec(v, size1, align1).0;
    lemma_align_up(w.next, align2);
}

/// Freeing the last live block makes the whole heap available again.
pub proof fn law_last_free_resets(v: BumpView)
    requires
        v.allocations == 1,
    ensures
        dealloc_spec(v).next == v.heap_start,
        dealloc_spec(v).allocations == 0,
{
}

} // verus!
