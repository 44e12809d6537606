//! Abstractions for page tables and other paging related structures.
pub mod laws;
pub mod page_table;

use crate::addr::{
    align_down_spec, is_power_of_two, is_sign_extendable, sign_extend, PhysAddr, VirtAddr,
};
use crate::bits::set_bits;
use crate::text::{hex_string, hex_text};
use core::marker::PhantomData;
use page_table::PageTableIndex;
use vstd::arithmetic::div_mod::{lemma_div_multiples_vanish, lemma_mod_multiples_vanish};
use vstd::arithmetic::power2::{lemma2_to64, lemma2_to64_rest, pow2};
use vstd::prelude::*;

verus! {

/// `size` is one of the three page sizes of x86_64: 4KiB, 2MiB or 1GiB.
pub open spec fn is_page_size(size: u64) -> bool {
    size == 0x1000 || size == 0x20_0000 || size == 0x4000_0000
}

/// A page size.
pub trait PageSize: Copy + Eq + PartialOrd + Ord {
    /// The page size in bytes.
    const SIZE: u64;

    /// A string representation of the page size for debug output.
    const SIZE_AS_DEBUG_STR: &'static str;

    /// The size is one of the page sizes of x86_64.
    proof fn lemma_size()
        ensures
            is_page_size(Self::SIZE),
    ;
}

/// A page size that is not the 1GiB size.
pub trait NotGiantPageSize: PageSize {

}

/// A standard 4KiB page.
#[derive(Clone, Copy, PartialEq, Eq, PartialOrd, Ord, Debug)]
pub enum Size4KB {
    /// The only value; the type serves as a marker.
    Marker,
}

/// A "huge" 2MiB page.
#[derive(Clone, Copy, PartialEq, Eq, PartialOrd, Ord, Debug)]
pub enum Size2MB {
    /// The only value; the type serves as a marker.
    Marker,
}

/// A "giant" 1GiB page.
#[derive(Clone, Copy, PartialEq, Eq, PartialOrd, Ord, Debug)]
pub enum Size1GB {
    /// The only value; the type serves as a marker.
    Marker,
}

impl PageSize for Size4KB {
    const SIZE: u64 = 4096;

    const SIZE_AS_DEBUG_STR: &'static str = "4KB";

    proof fn lemma_size() {
    }
}

impl NotGiantPageSize for Size4KB {

}

impl PageSize for Size2MB {
    const SIZE: u64 = 0x20_0000;

    const SIZE_AS_DEBUG_STR: &'static str = "2MB";

    proof fn lemma_size() {
    }
}

impl NotGiantPageSize for Size2MB {

}

impl PageSize for Size1GB {
    const SIZE: u64 = 0x4000_0000;

    const SIZE_AS_DEBUG_STR: &'static str = "1GB";

    proof fn lemma_size() {
    }
}

/// The sizes in bytes of the three page sizes, and their names in debug output.
pub proof fn lemma_page_size_values()
    ensures
        Size4KB::SIZE == 0x1000,
        Size2MB::SIZE == 0x20_0000,
        Size1GB::SIZE == 0x4000_0000,
        Size4KB::SIZE_AS_DEBUG_STR@ == "4KB"@,
        Size2MB::SIZE_AS_DEBUG_STR@ == "2MB"@,
        Size1GB::SIZE_AS_DEBUG_STR@ == "1GB"@,
{
}

/// A page size is a power of two that divides 2^47 and 2^48.
pub proof fn lemma_page_size_facts(size: u64)
    requires
        is_page_size(size),
    ensures
        is_power_of_two(size),
        size >= 0x1000,
        0x8000_0000_0000u64 % size == 0,
        0x1_0000_0000_0000u64 % size == 0,
        0x10_0000_0000_0000u64 % size == 0,
{
    lemma2_to64();
    if size == 0x1000 {
        assert(pow2(12) == size);
    } else if size == 0x20_0000 {
        assert(pow2(21) == size);
    } else {
        assert(pow2(30) == size);
    }
}

/// Stepping an aligned value by whole multiples of `size` keeps it aligned.
pub proof fn lemma_aligned_step(a: int, n: int, size: int)
    requires
        size > 0,
        a % size == 0,
    ensures
        (a + n * size) % size == 0,
        (a - n * size) % size == 0,
{
    lemma_mod_multiples_vanish(n, a, size);
    lemma_mod_multiples_vanish(-n, a, size);
    assert(size * n == n * size) by (nonlinear_arith);
    assert(size * (-n) == -(n * size)) by (nonlinear_arith);
}

/// Sign extension keeps an address aligned to a page size.
pub proof fn lemma_sign_extend_aligned(a: u64, size: u64)
    requires
        is_page_size(size),
        a % size == 0,
    ensures
        sign_extend(a) % size == 0,
{
    if size == 0x1000 {
        assert(a % 0x1000 == 0 ==> sign_extend(a) % 0x1000 == 0) by (bit_vector);
    } else if size == 0x20_0000 {
        assert(a % 0x20_0000 == 0 ==> sign_extend(a) % 0x20_0000 == 0) by (bit_vector);
    } else {
        assert(a % 0x4000_0000 == 0 ==> sign_extend(a) % 0x4000_0000 == 0) by (bit_vector);
    }
}

/// Moving an aligned start address `n` pages of `size` bytes higher neither overflows nor
/// loses data in bits 48 to 64.
pub open spec fn page_step_ok(start: u64, n: u64, size: u64) -> bool {
    &&& start + n * size <= u64::MAX
    &&& is_sign_extendable((start + n * size) as u64)
}

/// Moving an aligned start address `n` pages of `size` bytes lower neither underflows nor
/// loses data in bits 48 to 64.
pub open spec fn page_step_back_ok(start: u64, n: u64, size: u64) -> bool {
    &&& start >= n * size
    &&& is_sign_extendable((start - n * size) as u64)
}

/// A virtual memory page.
#[derive(Copy, PartialEq, Eq, PartialOrd, Ord, Debug)]
pub struct Page<S: PageSize = Size4KB> {
    start_address: VirtAddr,
    size: PhantomData<S>,
}

impl<S: PageSize> Clone for Page<S> {
    fn clone(&self) -> (r: Self)
        ensures
            r == *self,
    {
        *self
    }
}

impl<S: PageSize> View for Page<S> {
    type V = u64;

    closed spec fn view(&self) -> u64 {
        self.start_address@
    }
}

impl<S: PageSize> Page<S> {
    #[verifier::type_invariant]
    spec fn aligned(self) -> bool {
        self.start_address@ % S::SIZE == 0
    }

    /// The text of the debug form of the page: its kind, its size and its start address in hexadecimal.
    pub open spec fn debug_text(self) -> Seq<char> {
        "Page["@ + S::SIZE_AS_DEBUG_STR@ + "]("@ + hex_text(self@) + ")"@
    }

    /// The debug form of the page, such as `Page[4KB](0x1000)`.
    pub fn debug_string(&self) -> (r: String)
        ensures
            r@ == self.debug_text(),
    {
        let mut s = String::from_str("Page[");
        s.append(S::SIZE_AS_DEBUG_STR);
        s.append("](");
        let hex = hex_string(self.start_address().as_u64());
        s.append(hex.as_str());
        s.append(")");
        s
    }

    /// Returns the page that starts at the given virtual address, or an error if the address
    /// is not a page start.
    pub fn from_start_address(address: VirtAddr) -> (r: Result<Self, ()>)
        ensures
            r is Ok <==> address@ % S::SIZE == 0,
            r matches Ok(p) ==> p@ == address@,
    {
        proof {
            S::lemma_size();
            lemma_page_size_facts(S::SIZE);
        }
        if !address.is_aligned(S::SIZE) {
            return Err(());
        }
        Ok(Page::containing_address(address))
    }

    /// Returns the page that contains the given virtual address.
    pub fn containing_address(address: VirtAddr) -> (r: Self)
        ensures
            r@ == align_down_spec(address@, S::SIZE),
            r@ <= address@ < r@ + S::SIZE,
    {
        proof {
            S::lemma_size();
            lemma_page_size_facts(S::SIZE);
        }
        Page { start_address: address.align_down(S::SIZE), size: PhantomData }
    }

    /// Returns the start address of the page.
    pub fn start_address(&self) -> (r: VirtAddr)
        ensures
            r@ == self@,
            r@ % S::SIZE == 0,
    {
        proof {
            use_type_invariant(self);
        }
        self.start_address
    }

    /// Returns the size of the page (4KiB, 2MiB or 1GiB).
    pub fn size(&self) -> (r: u64)
        ensures
            r == S::SIZE,
    {
        S::SIZE
    }

    /// Returns the level 4 page table index of this page.
    pub fn p4_index(&self) -> (r: PageTableIndex)
        ensures
            r@ == (self@ / 0x80_0000_0000) % 512,
    {
        self.start_address().p4_index()
    }

    /// Returns the level 3 page table index of this page.
    pub fn p3_index(&self) -> (r: PageTableIndex)
        ensures
            r@ == (self@ / 0x4000_0000) % 512,
    {
        self.start_address().p3_index()
    }

    /// The range of pages from `start` (inclusive) to `end` (exclusive).
    pub fn range(start: Self, end: Self) -> (r: PageRange<S>)
        ensures
            r.start == start,
            r.end == end,
    {
        PageRange { start, end }
    }

    /// The range of pages from `start` to `end`, both inclusive.
    pub fn range_inclusive(start: Self, end: Self) -> (r: PageRangeInclusive<S>)
        ensures
            r.start == start,
            r.end == end,
    {
        PageRangeInclusive { start, end }
    }

    /// The page `rhs` pages higher.
    pub fn add(self, rhs: u64) -> (r: Self)
        requires
            page_step_ok(self@, rhs, S::SIZE),
        ensures
            r@ == sign_extend((self@ + rhs * S::SIZE) as u64),
    {
        proof {
            use_type_invariant(&self);
            S::lemma_size();
            lemma_page_size_facts(S::SIZE);
            assert(rhs * S::SIZE <= self@ + rhs * S::SIZE) by (nonlinear_arith);
            lemma_aligned_step(self@ as int, rhs as int, S::SIZE as int);
            lemma_sign_extend_aligned((self@ + rhs * S::SIZE) as u64, S::SIZE);
        }
        Page::containing_address(self.start_address().add(rhs * S::SIZE))
    }

    /// Moves this page `rhs` pages higher.
    pub fn add_assign(&mut self, rhs: u64)
        requires
            page_step_ok(old(self)@, rhs, S::SIZE),
        ensures
            final(self)@ == sign_extend((old(self)@ + rhs * S::SIZE) as u64),
    {
        *self = self.add(rhs);
    }

    /// The page `rhs` pages lower.
    pub fn sub(self, rhs: u64) -> (r: Self)
        requires
            page_step_back_ok(self@, rhs, S::SIZE),
        ensures
            r@ == sign_extend((self@ - rhs * S::SIZE) as u64),
    {
        proof {
            use_type_invariant(&self);
            S::lemma_size();
            lemma_page_size_facts(S::SIZE);
            lemma_aligned_step(self@ as int, rhs as int, S::SIZE as int);
            lemma_sign_extend_aligned((self@ - rhs * S::SIZE) as u64, S::SIZE);
        }
        Page::containing_address(self.start_address().sub(rhs * S::SIZE))
    }

    /// Moves this page `rhs` pages lower.
    pub fn sub_assign(&mut self, rhs: u64)
        requires
            page_step_back_ok(old(self)@, rhs, S::SIZE),
        ensures
            final(self)@ == sign_extend((old(self)@ - rhs * S::SIZE) as u64),
    {
        *self = self.sub(rhs);
    }

    /// The number of pages from `rhs` up to this page.
    pub fn sub_page(self, rhs: Self) -> (r: u64)
        requires
            self@ >= rhs@,
        ensures
            r == (self@ - rhs@) / (S::SIZE as int),
    {
        proof {
            S::lemma_size();
        }
        self.start_address().sub_addr(rhs.start_address()) / S::SIZE
    }
}

impl<S: NotGiantPageSize> Page<S> {
    /// Returns the level 2 page table index of this page.
    pub fn p2_index(&self) -> (r: PageTableIndex)
        ensures
            r@ == (self@ / 0x20_0000) % 512,
    {
        self.start_address().p2_index()
    }
}

/// The start address of the page with the given table indices: bits 39 to 48 hold the level 4
/// index, 30 to 39 the level 3 one, 21 to 30 the level 2 one and 12 to 21 the level 1 one,
/// with bit 47 sign-extended.
pub open spec fn table_indices_address(p4: u16, p3: u16, p2: u16, p1: u16) -> u64 {
    sign_extend((p4 * 0x80_0000_0000 + p3 * 0x4000_0000 + p2 * 0x20_0000 + p1 * 0x1000) as u64)
}

proof fn lemma_indices_address(p4: u64, p3: u64, p2: u64, p1: u64)
    requires
        p4 < 512,
        p3 < 512,
        p2 < 512,
        p1 < 512,
    ensures
        ((p4 * 0x80_0000_0000) / 0x4000_0000) % 512 == 0,
        ((p4 * 0x80_0000_0000 + p3 * 0x4000_0000) / 0x20_0000) % 512 == 0,
        ((p4 * 0x80_0000_0000 + p3 * 0x4000_0000 + p2 * 0x20_0000) / 0x1000) % 512 == 0,
        p4 * 0x80_0000_0000 + p3 * 0x4000_0000 + p2 * 0x20_0000 + p1 * 0x1000
            < 0x1_0000_0000_0000,
        (p4 * 0x80_0000_0000 + p3 * 0x4000_0000) % 0x4000_0000 == 0,
        (p4 * 0x80_0000_0000 + p3 * 0x4000_0000 + p2 * 0x20_0000) % 0x20_0000 == 0,
        (p4 * 0x80_0000_0000 + p3 * 0x4000_0000 + p2 * 0x20_0000 + p1 * 0x1000) % 0x1000 == 0,
{
    assert(((p4 * 0x80_0000_0000) / 0x4000_0000) % 512 == 0) by (nonlinear_arith)
        requires
            p4 < 512,
    {
        lemma_div_multiples_vanish((p4 * 512) as int, 0x4000_0000);
    }
    assert(((p4 * 0x80_0000_0000 + p3 * 0x4000_0000) / 0x20_0000) % 512 == 0) by (nonlinear_arith)
        requires
            p4 < 512,
            p3 < 512,
    {
        lemma_div_multiples_vanish((p4 * 0x4_0000 + p3 * 512) as int, 0x20_0000);
    }
    assert(((p4 * 0x80_0000_0000 + p3 * 0x4000_0000 + p2 * 0x20_0000) / 0x1000) % 512 == 0)
        by (nonlinear_arith)
        requires
            p4 < 512,
            p3 < 512,
            p2 < 512,
    {
        lemma_div_multiples_vanish((p4 * 0x800_0000 + p3 * 0x4_0000 + p2 * 512) as int, 0x1000);
    }
}

impl Page<Size1GB> {
    /// Returns the 1GiB page with the given level 4 and level 3 table indices.
    pub fn from_page_table_indices_1gb(p4_index: PageTableIndex, p3_index: PageTableIndex) -> (r:
        Self)
        ensures
            r@ == table_indices_address(p4_index@, p3_index@, 0, 0),
    {
        let p4 = p4_index.as_u64();
        let p3 = p3_index.as_u64();
        proof {
            lemma2_to64();
            lemma2_to64_rest();
            lemma_indices_address(p4, p3, 0, 0);
            lemma_sign_extend_aligned((p4 * 0x80_0000_0000 + p3 * 0x4000_0000) as u64, 0x4000_0000);
        }
        let mut addr: u64 = 0;
        addr = set_bits(addr, 39, 48, p4);
        addr = set_bits(addr, 30, 39, p3);
        Page::containing_address(VirtAddr::new(addr))
    }
}

impl Page<Size2MB> {
    /// Returns the 2MiB page with the given level 4, 3 and 2 table indices.
    pub fn from_page_table_indices_2mb(
        p4_index: PageTableIndex,
        p3_index: PageTableIndex,
        p2_index: PageTableIndex,
    ) -> (r: Self)
        ensures
            r@ == table_indices_address(p4_index@, p3_index@, p2_index@, 0),
    {
        let p4 = p4_index.as_u64();
        let p3 = p3_index.as_u64();
        let p2 = p2_index.as_u64();
        proof {
            lemma2_to64();
            lemma2_to64_rest();
            lemma_indices_address(p4, p3, p2, 0);
            lemma_sign_extend_aligned(
                (p4 * 0x80_0000_0000 + p3 * 0x4000_0000 + p2 * 0x20_0000) as u64,
                0x20_0000,
            );
        }
        let mut addr: u64 = 0;
        addr = set_bits(addr, 39, 48, p4);
        addr = set_bits(addr, 30, 39, p3);
        addr = set_bits(addr, 21, 30, p2);
        Page::containing_address(VirtAddr::new(addr))
    }
}

impl Page<Size4KB> {
    /// Returns the 4KiB page with the given level 4, 3, 2 and 1 table indices.
    pub fn from_page_table_indices(
        p4_index: PageTableIndex,
        p3_index: PageTableIndex,
        p2_index: PageTableIndex,
        p1_index: PageTableIndex,
    ) -> (r: Self)
        ensures
            r@ == table_indices_address(p4_index@, p3_index@, p2_index@, p1_index@),
    {
        let p4 = p4_index.as_u64();
        let p3 = p3_index.as_u64();
        let p2 = p2_index.as_u64();
        let p1 = p1_index.as_u64();
        proof {
            lemma2_to64();
            lemma2_to64_rest();
            lemma_indices_address(p4, p3, p2, p1);
            lemma_sign_extend_aligned(
                (p4 * 0x80_0000_0000 + p3 * 0x4000_0000 + p2 * 0x20_0000 + p1 * 0x1000) as u64,
                0x1000,
            );
        }
        let mut addr: u64 = 0;
        addr = set_bits(addr, 39, 48, p4);
        addr = set_bits(addr, 30, 39, p3);
        addr = set_bits(addr, 21, 30, p2);
        addr = set_bits(addr, 12, 21, p1);
        Page::containing_address(VirtAddr::new(addr))
    }

    /// Returns the level 1 page table index of this page.
    pub fn p1_index(&self) -> (r: PageTableIndex)
        ensures
            r@ == (self@ / 0x1000) % 512,
    {
        self.start_address().p1_index()
    }
}

/// A range of pages with an exclusive upper bound.
#[derive(Copy, PartialEq, Eq, Debug)]
pub struct PageRange<S: PageSize = Size4KB> {
    /// The start of the range, inclusive.
    pub start: Page<S>,
    /// The end of the range, exclusive.
    pub end: Page<S>,
}

impl<S: PageSize> Clone for PageRange<S> {
    fn clone(&self) -> (r: Self)
        ensures
            r == *self,
    {
        *self
    }
}

impl<S: PageSize> PageRange<S> {
    /// The text of the debug form of the range.
    pub open spec fn debug_text(self) -> Seq<char> {
        "PageRange { start: "@ + self.start.debug_text() + ", end: "@ + self.end.debug_text() + " }"@
    }

    /// The debug form of the range, such as
    /// `PageRange { start: Page[4KB](0x1000), end: Page[4KB](0x3000) }`.
    pub fn debug_string(&self) -> (r: String)
        ensures
            r@ == self.debug_text(),
    {
        let mut s = String::from_str("PageRange { start: ");
        let start = self.start.debug_string();
        s.append(start.as_str());
        s.append(", end: ");
        let end = self.end.debug_string();
        s.append(end.as_str());
        s.append(" }");
        s
    }

    /// Whether the range holds no page.
    pub fn is_empty(&self) -> (r: bool)
        ensures
            r == !(self.start@ < self.end@),
    {
        !(self.start.start_address().as_u64() < self.end.start_address().as_u64())
    }

    /// Returns the first page of the range and moves the start one page higher, or returns
    /// `None` when the range is empty.
    pub fn next(&mut self) -> (r: Option<Page<S>>)
        requires
            old(self).start@ < old(self).end@ ==> page_step_ok(old(self).start@, 1, S::SIZE),
        ensures
            old(self).start@ < old(self).end@ ==> {
                &&& r == Some(old(self).start)
                &&& final(self).start@ == sign_extend((old(self).start@ + S::SIZE) as u64)
                &&& final(self).end == old(self).end
            },
            !(old(self).start@ < old(self).end@) ==> r is None && *final(self) == *old(self),
    {
        if self.start.start_address().as_u64() < self.end.start_address().as_u64() {
            let page = self.start;
            self.start.add_assign(1);
            Some(page)
        } else {
            None
        }
    }
}

impl PageRange<Size2MB> {
    /// The same range of memory as a range of 4KiB pages.
    pub fn as_4kb_page_range(self) -> (r: PageRange<Size4KB>)
        ensures
            r.start@ == self.start@,
            r.end@ == self.end@,
    {
        let start = self.start.start_address();
        let end = self.end.start_address();
        let (s, e) = (start.as_u64(), end.as_u64());
        assert(s % 0x20_0000 == 0 ==> s % 0x1000 == 0) by (bit_vector);
        assert(e % 0x20_0000 == 0 ==> e % 0x1000 == 0) by (bit_vector);
        PageRange { start: Page::containing_address(start), end: Page::containing_address(end) }
    }
}

/// A range of pages with an inclusive upper bound.
#[derive(Copy, PartialEq, Eq, Debug)]
pub struct PageRangeInclusive<S: PageSize = Size4KB> {
    /// The start of the range, inclusive.
    pub start: Page<S>,
    /// The end of the range, inclusive.
    pub end: Page<S>,
}

impl<S: PageSize> Clone for PageRangeInclusive<S> {
    fn clone(&self) -> (r: Self)
        ensures
            r == *self,
    {
        *self
    }
}

impl<S: PageSize> PageRangeInclusive<S> {
    /// The text of the debug form of the range.
    pub open spec fn debug_text(self) -> Seq<char> {
        "PageRangeInclusive { start: "@ + self.start.debug_text() + ", end: "@ + self.end.debug_text() + " }"@
    }

    /// The debug form of the range, such as
    /// `PageRangeInclusive { start: Page[4KB](0x1000), end: Page[4KB](0x3000) }`.
    pub fn debug_string(&self) -> (r: String)
        ensures
            r@ == self.debug_text(),
    {
        let mut s = String::from_str("PageRangeInclusive { start: ");
        let start = self.start.debug_string();
        s.append(start.as_str());
        s.append(", end: ");
        let end = self.end.debug_string();
        s.append(end.as_str());
        s.append(" }");
        s
    }

    /// Whether the range holds no page.
    pub fn is_empty(&self) -> (r: bool)
        ensures
            r == !(self.start@ <= self.end@),
    {
        !(self.start.start_address().as_u64() <= self.end.start_address().as_u64())
    }

    /// Returns the first page of the range and moves the start one page higher, or returns
    /// `None` when the range is empty.
    pub fn next(&mut self) -> (r: Option<Page<S>>)
        requires
            old(self).start@ <= old(self).end@ ==> page_step_ok(old(self).start@, 1, S::SIZE),
        ensures
            old(self).start@ <= old(self).end@ ==> {
                &&& r == Some(old(self).start)
                &&& final(self).start@ == sign_extend((old(self).start@ + S::SIZE) as u64)
                &&& final(self).end == old(self).end
            },
            !(old(self).start@ <= old(self).end@) ==> r is None && *final(self) == *old(self),
    {
        if self.start.start_address().as_u64() <= self.end.start_address().as_u64() {
            let page = self.start;
            self.start.add_assign(1);
            Some(page)
        } else {
            None
        }
    }
}

/// Moving an aligned start address `n` frames of `size` bytes higher stays below 2^52.
pub open spec fn frame_step_ok(start: u64, n: u64, size: u64) -> bool {
    start + n * size < 0x10_0000_0000_0000
}

/// Moving an aligned start address `n` frames of `size` bytes lower neither underflows nor
/// leaves an address at or above 2^52.
pub open spec fn frame_step_back_ok(start: u64, n: u64, size: u64) -> bool {
    &&& start >= n * size
    &&& start - n * size < 0x10_0000_0000_0000
}

/// A physical memory frame.
#[derive(Copy, PartialEq, Eq, PartialOrd, Ord, Debug)]
pub struct PhysFrame<S: PageSize = Size4KB> {
    start_address: PhysAddr,
    size: PhantomData<S>,
}

impl<S: PageSize> Clone for PhysFrame<S> {
    fn clone(&self) -> (r: Self)
        ensures
            r == *self,
    {
        *self
    }
}

impl<S: PageSize> View for PhysFrame<S> {
    type V = u64;

    closed spec fn view(&self) -> u64 {
        self.start_address@
    }
}

impl<S: PageSize> PhysFrame<S> {
    #[verifier::type_invariant]
    spec fn aligned(self) -> bool {
        self.start_address@ % S::SIZE == 0
    }

    /// The text of the debug form of the frame: its kind, its size and its start address in hexadecimal.
    pub open spec fn debug_text(self) -> Seq<char> {
        "PhysFrame["@ + S::SIZE_AS_DEBUG_STR@ + "]("@ + hex_text(self@) + ")"@
    }

    /// The debug form of the frame, such as `PhysFrame[4KB](0x1000)`.
    pub fn debug_string(&self) -> (r: String)
        ensures
            r@ == self.debug_text(),
    {
        let mut s = String::from_str("PhysFrame[");
        s.append(S::SIZE_AS_DEBUG_STR);
        s.append("](");
        let hex = hex_string(self.start_address().as_u64());
        s.append(hex.as_str());
        s.append(")");
        s
    }

    /// Returns the frame that starts at the given physical address, or an error if the
    /// address is not a frame start.
    pub fn from_start_address(address: PhysAddr) -> (r: Result<Self, ()>)
        ensures
            r is Ok <==> address@ % S::SIZE == 0,
            r matches Ok(f) ==> f@ == address@,
    {
        proof {
            S::lemma_size();
            lemma_page_size_facts(S::SIZE);
        }
        if !address.is_aligned(S::SIZE) {
            return Err(());
        }
        Ok(PhysFrame::containing_address(address))
    }

    /// Returns the frame that contains the given physical address.
    pub fn containing_address(address: PhysAddr) -> (r: Self)
        ensures
            r@ == align_down_spec(address@, S::SIZE),
            r@ <= address@ < r@ + S::SIZE,
    {
        proof {
            S::lemma_size();
            lemma_page_size_facts(S::SIZE);
        }
        PhysFrame { start_address: address.align_down(S::SIZE), size: PhantomData }
    }

    /// Returns the start address of the frame.
    pub fn start_address(&self) -> (r: PhysAddr)
        ensures
            r@ == self@,
            r@ % S::SIZE == 0,
    {
        proof {
            use_type_invariant(self);
        }
        self.start_address
    }

    /// Returns the size of the frame (4KiB, 2MiB or 1GiB).
    pub fn size(&self) -> (r: u64)
        ensures
            r == S::SIZE,
    {
        S::SIZE
    }

    /// The range of frames from `start` (inclusive) to `end` (exclusive).
    pub fn range(start: Self, end: Self) -> (r: PhysFrameRange<S>)
        ensures
            r.start == start,
            r.end == end,
    {
        PhysFrameRange { start, end }
    }

    /// The range of frames from `start` to `end`, both inclusive.
    pub fn range_inclusive(start: Self, end: Self) -> (r: PhysFrameRangeInclusive<S>)
        ensures
            r.start == start,
            r.end == end,
    {
        PhysFrameRangeInclusive { start, end }
    }

    /// The frame `rhs` frames higher.
    pub fn add(self, rhs: u64) -> (r: Self)
        requires
            frame_step_ok(self@, rhs, S::SIZE),
        ensures
            r@ == self@ + rhs * S::SIZE,
    {
        proof {
            use_type_invariant(&self);
            S::lemma_size();
            lemma_page_size_facts(S::SIZE);
            assert(rhs * S::SIZE <= self@ + rhs * S::SIZE) by (nonlinear_arith);
            lemma_aligned_step(self@ as int, rhs as int, S::SIZE as int);
        }
        PhysFrame::containing_address(self.start_address().add(rhs * S::SIZE))
    }

    /// Moves this frame `rhs` frames higher.
    pub fn add_assign(&mut self, rhs: u64)
        requires
            frame_step_ok(old(self)@, rhs, S::SIZE),
        ensures
            final(self)@ == old(self)@ + rhs * S::SIZE,
    {
        *self = self.add(rhs);
    }

    /// The frame `rhs` frames lower.
    pub fn sub(self, rhs: u64) -> (r: Self)
        requires
            frame_step_back_ok(self@, rhs, S::SIZE),
        ensures
            r@ == self@ - rhs * S::SIZE,
    {
        proof {
            use_type_invariant(&self);
            S::lemma_size();
            lemma_page_size_facts(S::SIZE);
            lemma_aligned_step(self@ as int, rhs as int, S::SIZE as int);
        }
        PhysFrame::containing_address(self.start_address().sub(rhs * S::SIZE))
    }

    /// Moves this frame `rhs` frames lower.
    pub fn sub_assign(&mut self, rhs: u64)
        requires
            frame_step_back_ok(old(self)@, rhs, S::SIZE),
        ensures
            final(self)@ == old(self)@ - rhs * S::SIZE,
    {
        *self = self.sub(rhs);
    }

    /// The number of frames from `rhs` up to this frame.
    pub fn sub_frame(self, rhs: Self) -> (r: u64)
        requires
            self@ >= rhs@,
        ensures
            r == (self@ - rhs@) / (S::SIZE as int),
    {
        proof {
            S::lemma_size();
        }
        self.start_address().sub_addr(rhs.start_address()) / S::SIZE
    }
}

/// A range of frames with an exclusive upper bound.
#[derive(Copy, PartialEq, Eq, Debug)]
pub struct PhysFrameRange<S: PageSize = Size4KB> {
    /// The start of the range, inclusive.
    pub start: PhysFrame<S>,
    /// The end of the range, exclusive.
    pub end: PhysFrame<S>,
}

impl<S: PageSize> Clone for PhysFrameRange<S> {
    fn clone(&self) -> (r: Self)
        ensures
            r == *self,
    {
        *self
    }
}

impl<S: PageSize> PhysFrameRange<S> {
    /// The text of the debug form of the range.
    pub open spec fn debug_text(self) -> Seq<char> {
        "PhysFrameRange { start: "@ + self.start.debug_text() + ", end: "@ + self.end.debug_text() + " }"@
    }

    /// The debug form of the range, such as
    /// `PhysFrameRange { start: PhysFrame[4KB](0x1000), end: PhysFrame[4KB](0x3000) }`.
    pub fn debug_string(&self) -> (r: String)
        ensures
            r@ == self.debug_text(),
    {
        let mut s = String::from_str("PhysFrameRange { start: ");
        let start = self.start.debug_string();
        s.append(start.as_str());
        s.append(", end: ");
        let end = self.end.debug_string();
        s.append(end.as_str());
        s.append(" }");
        s
    }

    /// Whether the range holds no frame.
    pub fn is_empty(&self) -> (r: bool)
        ensures
            r == !(self.start@ < self.end@),
    {
        !(self.start.start_address().as_u64() < self.end.start_address().as_u64())
    }

    /// Returns the first frame of the range and moves the start one frame higher, or returns
    /// `None` when the range is empty.
    pub fn next(&mut self) -> (r: Option<PhysFrame<S>>)
        requires
            old(self).start@ < old(self).end@ ==> frame_step_ok(old(self).start@, 1, S::SIZE),
        ensures
            old(self).start@ < old(self).end@ ==> {
                &&& r == Some(old(self).start)
                &&& final(self).start@ == old(self).start@ + S::SIZE
                &&& final(self).end == old(self).end
            },
            !(old(self).start@ < old(self).end@) ==> r is None && *final(self) == *old(self),
    {
        if self.start.start_address().as_u64() < self.end.start_address().as_u64() {
            let frame = self.start;
            self.start.add_assign(1);
            Some(frame)
        } else {
            None
        }
    }
}

/// Calls `os_bootinfo::FrameRange::start_addr` on the range with the given frame numbers.
///
/// The crate's source multiplies the start frame number by its page size of 4096.
#[verifier::external_body]
fn boot_start_addr(start_frame_number: u64, end_frame_number: u64) -> (r: u64)
    requires
        start_frame_number * 4096 <= u64::MAX,
    ensures
        r == start_frame_number * 4096,
{
    os_bootinfo::FrameRange { start_frame_number, end_frame_number }.start_addr()
}

/// Calls `os_bootinfo::FrameRange::end_addr` on the range with the given frame numbers.
///
/// The crate's source multiplies the end frame number by its page size of 4096.
#[verifier::external_body]
fn boot_end_addr(start_frame_number: u64, end_frame_number: u64) -> (r: u64)
    requires
        end_frame_number * 4096 <= u64::MAX,
    ensures
        r == end_frame_number * 4096,
{
    os_bootinfo::FrameRange { start_frame_number, end_frame_number }.end_addr()
}

/// Calls `os_bootinfo::FrameRange::new(start_addr, end_addr)` and returns the frame numbers of
/// the range it builds.
///
/// The crate's source takes `start_addr / 4096` as the start frame and
/// `(end_addr - 1) / 4096 + 1` as the exclusive end frame; it subtracts 1 from `end_addr`.
#[verifier::external_body]
fn boot_frame_numbers(start_addr: u64, end_addr: u64) -> (r: (u64, u64))
    requires
        end_addr >= 1,
    ensures
        r.0 == start_addr / 4096,
        r.1 == (end_addr - 1) / 4096 + 1,
{
    let range = os_bootinfo::FrameRange::new(start_addr, end_addr);
    (range.start_frame_number, range.end_frame_number)
}

impl PhysFrameRange<Size4KB> {
    /// The frame range of a bootloader memory-map entry, given by its start frame number and
    /// its exclusive end frame number.
    pub fn from_frame_numbers(start_frame_number: u64, end_frame_number: u64) -> (r: Self)
        requires
            start_frame_number * 4096 < 0x10_0000_0000_0000,
            end_frame_number * 4096 < 0x10_0000_0000_0000,
        ensures
            r.start@ == start_frame_number * 4096,
            r.end@ == end_frame_number * 4096,
    {
        let start_addr = boot_start_addr(start_frame_number, end_frame_number);
        let end_addr = boot_end_addr(start_frame_number, end_frame_number);
        assert(start_addr % 4096 == 0) by (nonlinear_arith)
            requires
                start_addr == start_frame_number * 4096,
        ;
        assert(end_addr % 4096 == 0) by (nonlinear_arith)
            requires
                end_addr == end_frame_number * 4096,
        ;
        PhysFrameRange {
            start: PhysFrame::from_start_address(PhysAddr::new(start_addr)).unwrap(),
            end: PhysFrame::from_start_address(PhysAddr::new(end_addr)).unwrap(),
        }
    }

    /// The start frame number and the exclusive end frame number of this range, as a
    /// bootloader memory map holds them.
    pub fn frame_numbers(self) -> (r: (u64, u64))
        requires
            self.end@ >= 1,
        ensures
            r.0 == self.start@ / 4096,
            r.1 == self.end@ / 4096,
    {
        let start = self.start.start_address().as_u64();
        let end = self.end.start_address().as_u64();
        assert(end % 4096 == 0 && end >= 1 ==> (end - 1) / 4096 + 1 == end / 4096) by (bit_vector);
        boot_frame_numbers(start, end)
    }
}

/// A range of frames with an inclusive upper bound.
#[derive(Copy, PartialEq, Eq, Debug)]
pub struct PhysFrameRangeInclusive<S: PageSize = Size4KB> {
    /// The start of the range, inclusive.
    pub start: PhysFrame<S>,
    /// The end of the range, inclusive.
    pub end: PhysFrame<S>,
}

impl<S: PageSize> Clone for PhysFrameRangeInclusive<S> {
    fn clone(&self) -> (r: Self)
        ensures
            r == *self,
    {
        *self
    }
}

impl<S: PageSize> PhysFrameRangeInclusive<S> {
    /// The text of the debug form of the range.
    pub open spec fn debug_text(self) -> Seq<char> {
        "PhysFrameRangeInclusive { start: "@ + self.start.debug_text() + ", end: "@ + self.end.debug_text() + " }"@
    }

    /// The debug form of the range, such as
    /// `PhysFrameRangeInclusive { start: PhysFrame[4KB](0x1000), end: PhysFrame[4KB](0x3000) }`.
    pub fn debug_string(&self) -> (r: String)
        ensures
            r@ == self.debug_text(),
    {
        let mut s = String::from_str("PhysFrameRangeInclusive { start: ");
        let start = self.start.debug_string();
        s.append(start.as_str());
        s.append(", end: ");
        let end = self.end.debug_string();
        s.append(end.as_str());
        s.append(" }");
        s
    }

    /// Whether the range holds no frame.
    pub fn is_empty(&self) -> (r: bool)
        ensures
            r == !(self.start@ <= self.end@),
    {
        !(self.start.start_address().as_u64() <= self.end.start_address().as_u64())
    }

    /// Returns the first frame of the range and moves the start one frame higher, or returns
    /// `None` when the range is empty.
    pub fn next(&mut self) -> (r: Option<PhysFrame<S>>)
        requires
            old(self).start@ <= old(self).end@ ==> frame_step_ok(old(self).start@, 1, S::SIZE),
        ensures
            old(self).start@ <= old(self).end@ ==> {
                &&& r == Some(old(self).start)
                &&& final(self).start@ == old(self).start@ + S::SIZE
                &&& final(self).end == old(self).end
            },
            !(old(self).start@ <= old(self).end@) ==> r is None && *final(self) == *old(self),
    {
        if self.start.start_address().as_u64() <= self.end.start_address().as_u64() {
            let frame = self.start;
            self.start.add_assign(1);
            Some(frame)
        } else {
            None
        }
    }
}

} // verus!
