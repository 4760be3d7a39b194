//! Firmware images.
pub mod elf;
pub mod fsp;
