//! Indexes into page tables and offsets into pages.
use vstd::prelude::*;

verus! {

/// A 9-bit index into a page table.
#[derive(Clone, Copy, PartialEq, Eq, PartialOrd, Ord, Hash, Debug)]
pub struct PageTableIndex(u16);

impl View for PageTableIndex {
    type V = u16;

    closed spec fn view(&self) -> u16 {
        self.0
    }
}

impl PageTableIndex {
    #[verifier::type_invariant]
    spec fn fits(self) -> bool {
        self.0 < 512
    }

    /// Creates an index from a value below 512.
    pub fn new(index: u16) -> (r: Self)
        requires
            index < 512,
        ensures
            r@ == index,
    {
        PageTableIndex(index)
    }

    /// The index as a `u16`.
    pub fn value(self) -> (r: u16)
        ensures
            r == self@,
            r < 512,
    {
        proof {
            use_type_invariant(&self);
        }
        self.0
    }

    /// The index as a `u64`.
    pub fn as_u64(self) -> (r: u64)
        ensures
            r == self@,
            r < 512,
    {
        proof {
            use_type_invariant(&self);
        }
        self.0 as u64
    }
}

/// A 12-bit offset into a 4KiB page.
#[derive(Clone, Copy, PartialEq, Eq, PartialOrd, Ord, Hash, Debug)]
pub struct PageOffset(u16);

impl View for PageOffset {
    type V = u16;

    closed spec fn view(&self) -> u16 {
        self.0
    }
}

impl PageOffset {
    #[verifier::type_invariant]
    spec fn fits(self) -> bool {
        self.0 < 4096
    }

    /// Creates an offset from a value below 4096.
    pub fn new(offset: u16) -> (r: Self)
        requires
            offset < 4096,
        ensures
            r@ == offset,
    {
        PageOffset(offset)
    }

    /// The offset as a `u16`.
    pub fn value(self) -> (r: u16)
        ensures
            r == self@,
            r < 4096,
    {
        proof {
            use_type_invariant(&self);
        }
        self.0
    }

    /// The offset as a `u64`.
    pub fn as_u64(self) -> (r: u64)
        ensures
            r == self@,
            r < 4096,
    {
        proof {
            use_type_invariant(&self);
        }
        self.0 as u64
    }
}

} // verus!
