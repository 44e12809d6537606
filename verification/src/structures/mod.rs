//! Processor structures: paging.
pub mod paging;
