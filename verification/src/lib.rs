//! The verified core of a small x86_64 hobby kernel: its in-memory
//! filesystem, shell commands, built-in apps, VGA text writer, keyboard and
//! clock decoding, heap allocator, page-table entries and scheduler.

pub mod text;
pub mod fs;
pub mod drivers;
pub mod memory;
pub mod apps;
pub mod task;
pub mod arch;
pub mod shell;
