//! GPU memory management: page tables and mappings in the BAR1 aperture.
pub mod bar_user;
pub mod pagetable;
pub mod self_test;
