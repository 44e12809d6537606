//! Addresses, pages, frames and TLB commands of the x86_64 architecture.
pub mod addr;
pub mod bits;
pub mod text;
pub mod instructions;
pub mod structures;

pub use addr::{PhysAddr, VirtAddr};
