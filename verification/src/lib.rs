//! Nova Core: the message, boot and mapping logic of a driver for NVIDIA GPUs
//! that run the GSP firmware.
//!
//! The library holds everything that can be decided from plain values: the two
//! rings shared with the GSP, the framing and checksums of messages, the RM
//! protocol on top of them, the checks on FSP replies and firmware images, the
//! order in which a GPU is booted and tested, and the arithmetic of BAR1
//! mappings. Registers, DMA memory and clocks stay with the caller.
pub mod bytes;
pub mod checksum;
pub mod error;
pub mod firmware;
pub mod fsp;
pub mod gsp;
pub mod mctp;
pub mod mm;
pub mod poll;
pub mod rm;
pub mod sbuffer;
