use zanop::arch::gdt::gdt_entries;
use zanop::arch::idt::IdtEntry;
use zanop::arch::pic::{eoi_sequence, init_sequence};
use zanop::memory::allocator::{align_up, BumpAllocator, HEAP_SIZE, HEAP_START};
use zanop::memory::paging::{PageFlags, PageTable, PageTableEntry, PRESENT, WRITABLE, NO_EXECUTE};
use zanop::task::{Scheduler, Task, TaskIds, TaskState};

#[test]
fn align_up_rounds_to_multiples() {
    assert_eq!(align_up(13, 8), 16);
    assert_eq!(align_up(16, 8), 16);
    assert_eq!(align_up(0, 4096), 0);
    assert_eq!(align_up(1, 1), 1);
}

#[test]
fn bump_allocator_hands_out_disjoint_aligned_blocks() {
    let mut a = BumpAllocator::new();
    assert_eq!(a.allocate(1, 1), None);
    a.init(HEAP_START as usize, HEAP_SIZE as usize);
    let p1 = a.allocate(10, 8).unwrap();
    assert_eq!(p1, HEAP_START as usize);
    let p2 = a.allocate(4, 16).unwrap();
    assert_eq!(p2 % 16, 0);
    assert!(p2 >= p1 + 10);
    assert_eq!(a.allocate(HEAP_SIZE as usize, 1), None);
    a.dealloc();
    let p3 = a.allocate(1, 1).unwrap();
    assert_eq!(p3, p2 + 4);
    a.dealloc();
    a.dealloc();
    assert_eq!(a.allocate(1, 1), Some(HEAP_START as usize));
}

#[test]
fn would_fit_predicts_allocate() {
    let mut a = BumpAllocator::new();
    a.init(HEAP_START as usize, HEAP_SIZE as usize);
    assert!(a.would_fit(HEAP_SIZE as usize, 1));
    assert!(!a.would_fit(HEAP_SIZE as usize + 1, 1));
    assert!(a.would_fit(10, 8));
    assert_eq!(a.next_free(), HEAP_START as usize);
    assert_eq!(a.allocations(), 0);
    a.allocate(HEAP_SIZE as usize - 8, 1).unwrap();
    assert!(!a.would_fit(8, 16));
    assert!(a.would_fit(8, 8));
    assert_eq!(a.allocations(), 1);
}

#[test]
fn page_table_entries() {
    let mut e = PageTableEntry::empty();
    assert!(!e.is_present());
    let flags = PageFlags::from_bits_truncate(PRESENT | WRITABLE | 0x10);
    assert_eq!(flags.bits(), PRESENT | WRITABLE);
    e.set(0x1234_5678_9abc, flags);
    assert!(e.is_present());
    assert_eq!(e.addr(), 0x1234_5678_9000);
    e.set(0xdead_b000, PageFlags::from_bits_truncate(NO_EXECUTE));
    assert!(!e.is_present());
    assert_eq!(e.addr(), 0xdead_b000);
    let both = PageFlags::from_bits_truncate(PRESENT).union(PageFlags::from_bits_truncate(WRITABLE));
    assert!(both.contains(PageFlags::from_bits_truncate(WRITABLE)));
    assert!(!PageFlags::empty().contains(both));
    let _ = PageTable::new();
}

#[test]
fn idt_gate_splits_handler_address() {
    let mut e = IdtEntry::missing();
    assert_eq!(e.type_attr, 0);
    e.set_handler(0x1234_5678_9abc_def0, 0x08);
    assert_eq!(e.offset_low, 0xdef0);
    assert_eq!(e.offset_mid, 0x9abc);
    assert_eq!(e.offset_high, 0x1234_5678);
    assert_eq!(e.selector, 0x08);
    assert_eq!(e.type_attr, 0x8E);
    assert_eq!(e.ist, 0);
    assert_eq!(e.zero, 0);
}

#[test]
fn pic_sequences() {
    assert_eq!(eoi_sequence(1), vec![(0x20, 0x20)]);
    assert_eq!(eoi_sequence(8), vec![(0xA0, 0x20), (0x20, 0x20)]);
    let init = init_sequence();
    assert_eq!(init.len(), 18);
    assert_eq!(init[0], (0x20, 0x11));
    assert_eq!(init[4], (0x21, 32));
    assert_eq!(init[6], (0xA1, 40));
    assert_eq!(init[16], (0x21, 0xFD));
    assert_eq!(init[17], (0xA1, 0xFF));
}

#[test]
fn gdt_has_null_code_and_data() {
    let g = gdt_entries();
    assert_eq!(g[0].access, 0);
    assert_eq!(g[1].access, 0x9A);
    assert_eq!(g[2].access, 0x92);
    assert_eq!(g[1].granularity, 0xAF);
    assert_eq!(g[2].limit_low, 0xFFFF);
}

#[test]
fn task_ids_count_up() {
    let mut ids = TaskIds::new();
    let a = Task::new(&mut ids);
    let b = Task::new(&mut ids);
    assert_eq!(a.id, 0);
    assert_eq!(b.id, 1);
    assert_eq!(a.state, TaskState::Ready);
}

#[test]
fn scheduler_is_round_robin() {
    let mut ids = TaskIds::new();
    let mut s = Scheduler::new();
    assert!(s.schedule().is_none());
    s.spawn(Task::new(&mut ids));
    s.spawn(Task::new(&mut ids));
    s.spawn(Task::new(&mut ids));
    assert_eq!(s.schedule().unwrap().id, 0);
    assert_eq!(s.schedule().unwrap().id, 1);
    assert_eq!(s.schedule().unwrap().id, 2);
    assert_eq!(s.schedule().unwrap().id, 0);
}

#[test]
fn terminated_task_leaves_the_rotation() {
    let mut s = Scheduler::new();
    s.spawn(Task { id: 7, state: TaskState::Terminated });
    s.spawn(Task { id: 8, state: TaskState::Ready });
    assert_eq!(s.schedule().unwrap().id, 7);
    assert_eq!(s.schedule().unwrap().id, 8);
    assert_eq!(s.schedule().unwrap().id, 8);
}

#[test]
fn single_task_keeps_running() {
    let mut s = Scheduler::new();
    s.spawn(Task { id: 3, state: TaskState::Ready });
    assert_eq!(s.schedule().unwrap().id, 3);
    assert_eq!(s.schedule().unwrap().id, 3);
}
