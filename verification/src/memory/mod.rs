pub mod allocator;
pub mod paging;
