//! Special x86_64 instructions: the decisions they take before they run.
pub mod tlb;
