pub mod vga;
pub mod rtc;
pub mod keyboard;
pub mod serial;
