//! The GSP, the processor on the GPU that runs the resource manager firmware.
pub mod fw;
pub mod mem;
pub mod cmdq;
pub mod function;
pub mod gh100;
