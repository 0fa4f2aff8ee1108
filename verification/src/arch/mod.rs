pub mod gdt;
pub mod idt;
pub mod pic;
