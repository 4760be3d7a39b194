//! The RM (resource manager) API: control and allocation requests.
pub mod common;
pub mod rm_alloc;
pub mod rm_control;
