//! Physical and virtual addresses, and the alignment arithmetic on them.
use crate::bits::{get_bit, get_bits, set_bits};
use crate::structures::paging::page_table::{PageOffset, PageTableIndex};
use vstd::arithmetic::power2::{lemma2_to64, lemma2_to64_rest, lemma_pow2_pos, pow2};
use vstd::bits::{lemma_u64_low_bits_mask_is_mod, low_bits_mask};
use vstd::prelude::*;

verus! {

/// `x` is a power of two that fits in a `u64`.
pub open spec fn is_power_of_two(x: u64) -> bool {
    exists|k: nat| k < 64 && #[trigger] pow2(k) == x
}

/// The greatest multiple of `align` that is at most `addr`.
pub open spec fn align_down_spec(addr: u64, align: u64) -> int {
    addr - addr % align
}

/// The smallest multiple of `align` that is at least `addr`.
pub open spec fn align_up_spec(addr: u64, align: u64) -> int {
    if addr % align == 0 {
        addr as int
    } else {
        addr - addr % align + align
    }
}

/// Bits 48 to 64 of `addr` are copies of bit 47.
pub open spec fn is_canonical(addr: u64) -> bool {
    addr < 0x8000_0000_0000 || addr >= 0xffff_8000_0000_0000
}

/// Bits 47 to 64 of `addr` are either all null, all set, or only bit 47 is set: sign
/// extension of bit 47 loses no data.
pub open spec fn is_sign_extendable(addr: u64) -> bool {
    addr < 0x1_0000_0000_0000 || addr >= 0xffff_8000_0000_0000
}

/// The low 48 bits of `addr`, with bit 47 copied into bits 48 to 64.
pub open spec fn sign_extend(addr: u64) -> u64 {
    let low = addr % 0x1_0000_0000_0000;
    if low < 0x8000_0000_0000 {
        low
    } else {
        (low + 0xffff_0000_0000_0000) as u64
    }
}

/// No bit in the range 52 to 64 of `addr` is set.
pub open spec fn is_valid_phys(addr: u64) -> bool {
    addr < 0x10_0000_0000_0000
}

proof fn lemma_align_mask(x: u64, align: u64)
    requires
        is_power_of_two(align),
    ensures
        align > 0,
        x & ((align - 1) as u64) == x % align,
        x & !((align - 1) as u64) == x - x % align,
        (x | ((align - 1) as u64)) == x - x % align + align - 1,
{
    let k = choose|k: nat| k < 64 && #[trigger] pow2(k) == align;
    lemma_pow2_pos(k);
    lemma_u64_low_bits_mask_is_mod(x, k);
    assert(low_bits_mask(k) == pow2(k) - 1);
    let m = (align - 1) as u64;
    assert(x & !m == x - (x & m)) by (bit_vector);
    assert(x | m == x - (x & m) + m) by (bit_vector);
}

/// Aligns `addr` downwards: the greatest `x` with alignment `align` so that `x <= addr`.
pub fn align_down(addr: u64, align: u64) -> (r: u64)
    requires
        is_power_of_two(align),
    ensures
        r == align_down_spec(addr, align),
{
    proof {
        lemma_align_mask(addr, align);
    }
    addr & !(align - 1)
}

/// Aligns `addr` upwards: the smallest `x` with alignment `align` so that `x >= addr`.
pub fn align_up(addr: u64, align: u64) -> (r: u64)
    requires
        is_power_of_two(align),
        align_up_spec(addr, align) <= u64::MAX,
    ensures
        r == align_up_spec(addr, align),
{
    proof {
        lemma_align_mask(addr, align);
    }
    let align_mask = align - 1;
    if addr & align_mask == 0 {
        addr
    } else {
        (addr | align_mask) + 1
    }
}

proof fn lemma_top_bits(addr: u64)
    ensures
        (addr / 0x8000_0000_0000) % 0x20000 == addr / 0x8000_0000_0000,
        (addr / 0x8000_0000_0000 == 0) == (addr < 0x8000_0000_0000),
        (addr / 0x8000_0000_0000 == 1) == (0x8000_0000_0000 <= addr && addr
            < 0x1_0000_0000_0000),
        (addr / 0x8000_0000_0000 == 0x1ffff) == (addr >= 0xffff_8000_0000_0000),
        ((addr / 0x8000_0000_0000) % 2 == 1) == (addr % 0x1_0000_0000_0000
            >= 0x8000_0000_0000),
        (addr / 0x1_0000_0000_0000) % 0x10000 == addr / 0x1_0000_0000_0000,
        addr - (addr / 0x1_0000_0000_0000) * 0x1_0000_0000_0000 == addr % 0x1_0000_0000_0000,
{
    assert((addr / 0x8000_0000_0000) % 0x20000 == addr / 0x8000_0000_0000) by (bit_vector);
    assert((addr / 0x8000_0000_0000 == 0) == (addr < 0x8000_0000_0000)) by (bit_vector);
    assert((addr / 0x8000_0000_0000 == 1) == (0x8000_0000_0000 <= addr && addr
        < 0x1_0000_0000_0000)) by (bit_vector);
    assert((addr / 0x8000_0000_0000 == 0x1ffff) == (addr >= 0xffff_8000_0000_0000))
        by (bit_vector);
    assert(((addr / 0x8000_0000_0000) % 2 == 1) == (addr % 0x1_0000_0000_0000
        >= 0x8000_0000_0000)) by (bit_vector);
    assert((addr / 0x1_0000_0000_0000) % 0x10000 == addr / 0x1_0000_0000_0000)
        by (bit_vector);
    assert(addr - (addr / 0x1_0000_0000_0000) * 0x1_0000_0000_0000 == addr
        % 0x1_0000_0000_0000) by (bit_vector);
}

proof fn lemma_sign_extend_facts(addr: u64)
    ensures
        addr < 0x8000_0000_0000 ==> sign_extend(addr) == addr,
        addr >= 0xffff_8000_0000_0000 ==> sign_extend(addr) == addr,
        is_canonical(addr) ==> sign_extend(addr) == addr,
        is_canonical(sign_extend(addr)),
{
}

/// A virtual memory address.
///
/// On x86_64 only the 48 lower bits of a virtual address are used; the top 16 bits of a
/// canonical address are copies of bit 47. The constructors return canonical addresses; the
/// alignment methods may leave that range.
#[derive(Clone, Copy, PartialEq, Eq, PartialOrd, Ord, Hash, Debug)]
pub struct VirtAddr(u64);

/// A 64-bit physical memory address.
///
/// On x86_64 only the 52 lower bits of a physical address are used; `new` refuses the others.
#[derive(Clone, Copy, PartialEq, Eq, PartialOrd, Ord, Hash, Debug)]
pub struct PhysAddr(u64);

/// A passed `u64` was not a valid virtual address: bits 47 to 64 (held here) are neither a
/// sign extension nor null.
#[derive(Debug)]
pub struct VirtAddrNotValid(u64);

impl View for VirtAddr {
    type V = u64;

    closed spec fn view(&self) -> u64 {
        self.0
    }
}

impl View for PhysAddr {
    type V = u64;

    closed spec fn view(&self) -> u64 {
        self.0
    }
}

impl View for VirtAddrNotValid {
    type V = u64;

    closed spec fn view(&self) -> u64 {
        self.0
    }
}

impl VirtAddrNotValid {
    /// The bits 47 to 64 of the refused address.
    pub fn bits(&self) -> (r: u64)
        ensures
            r == self@,
    {
        self.0
    }
}

impl VirtAddr {
    /// Creates a new canonical virtual address, sign-extending bit 47.
    ///
    /// The bits 48 to 64 must be null or already a sign extension.
    pub fn new(addr: u64) -> (r: VirtAddr)
        requires
            is_sign_extendable(addr),
        ensures
            r@ == sign_extend(addr),
            is_canonical(r@),
    {
        Self::try_new(addr).unwrap()
    }

    /// Tries to create a new canonical virtual address.
    ///
    /// Succeeds if bits 48 to 64 are either a correct sign extension of bit 47 or all null;
    /// else returns the bits 47 to 64.
    pub fn try_new(addr: u64) -> (r: Result<VirtAddr, VirtAddrNotValid>)
        ensures
            r is Ok <==> is_sign_extendable(addr),
            r matches Ok(v) ==> v@ == sign_extend(addr),
            r matches Err(e) ==> e@ == addr / 0x8000_0000_0000,
    {
        proof {
            lemma2_to64();
            lemma2_to64_rest();
            lemma_top_bits(addr);
            lemma_sign_extend_facts(addr);
        }
        let bits = get_bits(addr, 47, 64);
        match bits {
            0 | 0x1ffff => Ok(VirtAddr(addr)),
            1 => Ok(VirtAddr::new_unchecked(addr)),
            other => Err(VirtAddrNotValid(other)),
        }
    }

    /// Creates a new canonical virtual address without checks: bits 48 to 64 are overwritten
    /// by copies of bit 47.
    pub fn new_unchecked(addr: u64) -> (r: VirtAddr)
        ensures
            r@ == sign_extend(addr),
    {
        proof {
            lemma2_to64();
            lemma2_to64_rest();
            lemma_top_bits(addr);
        }
        let high = get_bit(addr, 47);
        let extended = if high {
            set_bits(addr, 48, 64, 0xffff)
        } else {
            set_bits(addr, 48, 64, 0)
        };
        VirtAddr(extended)
    }

    /// The zero address.
    pub fn zero() -> (r: VirtAddr)
        ensures
            r@ == 0,
    {
        VirtAddr(0)
    }

    /// The address as a `u64`.
    pub fn as_u64(self) -> (r: u64)
        ensures
            r == self@,
    {
        self.0
    }

    /// Aligns the address upwards to `align`, a power of two.
    pub fn align_up(self, align: u64) -> (r: Self)
        requires
            is_power_of_two(align),
            align_up_spec(self@, align) <= u64::MAX,
        ensures
            r@ == align_up_spec(self@, align),
    {
        VirtAddr(align_up(self.0, align))
    }

    /// Aligns the address downwards to `align`, a power of two.
    pub fn align_down(self, align: u64) -> (r: Self)
        requires
            is_power_of_two(align),
        ensures
            r@ == align_down_spec(self@, align),
    {
        VirtAddr(align_down(self.0, align))
    }

    /// Whether the address is a multiple of `align`, a power of two.
    pub fn is_aligned(self, align: u64) -> (r: bool)
        requires
            is_power_of_two(align),
        ensures
            r == (self@ % align == 0),
    {
        proof {
            lemma_align_mask(self.0, align);
        }
        self.align_down(align).as_u64() == self.0
    }

    /// The 12-bit offset of the address inside its 4KiB page.
    pub fn page_offset(&self) -> (r: PageOffset)
        ensures
            r@ == self@ % 4096,
    {
        let x = self.0;
        assert(x & 0xfff == x % 4096) by (bit_vector);
        PageOffset::new((x & 0xfff) as u16)
    }

    /// The 9-bit level 1 page table index.
    pub fn p1_index(&self) -> (r: PageTableIndex)
        ensures
            r@ == (self@ / 0x1000) % 512,
    {
        let x = self.0;
        assert((x >> 12u64) & 0o777 == (x / 0x1000) % 512) by (bit_vector);
        PageTableIndex::new(((x >> 12u64) & 0o777) as u16)
    }

    /// The 9-bit level 2 page table index.
    pub fn p2_index(&self) -> (r: PageTableIndex)
        ensures
            r@ == (self@ / 0x20_0000) % 512,
    {
        let x = self.0;
        assert((x >> 21u64) & 0o777 == (x / 0x20_0000) % 512) by (bit_vector);
        PageTableIndex::new(((x >> 21u64) & 0o777) as u16)
    }

    /// The 9-bit level 3 page table index.
    pub fn p3_index(&self) -> (r: PageTableIndex)
        ensures
            r@ == (self@ / 0x4000_0000) % 512,
    {
        let x = self.0;
        assert((x >> 30u64) & 0o777 == (x / 0x4000_0000) % 512) by (bit_vector);
        PageTableIndex::new(((x >> 30u64) & 0o777) as u16)
    }

    /// The 9-bit level 4 page table index.
    pub fn p4_index(&self) -> (r: PageTableIndex)
        ensures
            r@ == (self@ / 0x80_0000_0000) % 512,
    {
        let x = self.0;
        assert((x >> 39u64) & 0o777 == (x / 0x80_0000_0000) % 512) by (bit_vector);
        PageTableIndex::new(((x >> 39u64) & 0o777) as u16)
    }

    /// The address `rhs` bytes higher, made canonical.
    pub fn add(self, rhs: u64) -> (r: VirtAddr)
        requires
            self@ + rhs <= u64::MAX,
            is_sign_extendable((self@ + rhs) as u64),
        ensures
            r@ == sign_extend((self@ + rhs) as u64),
    {
        VirtAddr::new(self.0 + rhs)
    }

    /// Moves the address `rhs` bytes higher, made canonical.
    pub fn add_assign(&mut self, rhs: u64)
        requires
            old(self)@ + rhs <= u64::MAX,
            is_sign_extendable((old(self)@ + rhs) as u64),
        ensures
            final(self)@ == sign_extend((old(self)@ + rhs) as u64),
    {
        *self = self.add(rhs);
    }

    /// The address `rhs` bytes lower, made canonical.
    pub fn sub(self, rhs: u64) -> (r: VirtAddr)
        requires
            self@ >= rhs,
            is_sign_extendable((self@ - rhs) as u64),
        ensures
            r@ == sign_extend((self@ - rhs) as u64),
    {
        VirtAddr::new(self.0 - rhs)
    }

    /// Moves the address `rhs` bytes lower, made canonical.
    pub fn sub_assign(&mut self, rhs: u64)
        requires
            old(self)@ >= rhs,
            is_sign_extendable((old(self)@ - rhs) as u64),
        ensures
            final(self)@ == sign_extend((old(self)@ - rhs) as u64),
    {
        *self = self.sub(rhs);
    }

    /// The distance in bytes from `rhs` up to this address.
    pub fn sub_addr(self, rhs: VirtAddr) -> (r: u64)
        requires
            self@ >= rhs@,
        ensures
            r == self@ - rhs@,
    {
        self.0 - rhs.0
    }
}

impl PhysAddr {
    /// Creates a new physical address; no bit in the range 52 to 64 may be set.
    pub fn new(addr: u64) -> (r: PhysAddr)
        requires
            is_valid_phys(addr),
        ensures
            r@ == addr,
    {
        PhysAddr(addr)
    }

    /// The zero address.
    pub fn zero() -> (r: PhysAddr)
        ensures
            r@ == 0,
    {
        PhysAddr(0)
    }

    /// The address as a `u64`.
    pub fn as_u64(self) -> (r: u64)
        ensures
            r == self@,
    {
        self.0
    }

    /// Aligns the address upwards to `align`, a power of two.
    pub fn align_up(self, align: u64) -> (r: Self)
        requires
            is_power_of_two(align),
            align_up_spec(self@, align) <= u64::MAX,
        ensures
            r@ == align_up_spec(self@, align),
    {
        PhysAddr(align_up(self.0, align))
    }

    /// Aligns the address downwards to `align`, a power of two.
    pub fn align_down(self, align: u64) -> (r: Self)
        requires
            is_power_of_two(align),
        ensures
            r@ == align_down_spec(self@, align),
    {
        PhysAddr(align_down(self.0, align))
    }

    /// Whether the address is a multiple of `align`, a power of two.
    pub fn is_aligned(self, align: u64) -> (r: bool)
        requires
            is_power_of_two(align),
        ensures
            r == (self@ % align == 0),
    {
        proof {
            lemma_align_mask(self.0, align);
        }
        self.align_down(align).as_u64() == self.0
    }

    /// The address `rhs` bytes higher.
    pub fn add(self, rhs: u64) -> (r: PhysAddr)
        requires
            is_valid_phys((self@ + rhs) as u64),
            self@ + rhs <= u64::MAX,
        ensures
            r@ == self@ + rhs,
    {
        PhysAddr::new(self.0 + rhs)
    }

    /// Moves the address `rhs` bytes higher.
    pub fn add_assign(&mut self, rhs: u64)
        requires
            is_valid_phys((old(self)@ + rhs) as u64),
            old(self)@ + rhs <= u64::MAX,
        ensures
            final(self)@ == old(self)@ + rhs,
    {
        *self = self.add(rhs);
    }

    /// The address `rhs` bytes lower.
    pub fn sub(self, rhs: u64) -> (r: PhysAddr)
        requires
            self@ >= rhs,
            is_valid_phys((self@ - rhs) as u64),
        ensures
            r@ == self@ - rhs,
    {
        PhysAddr::new(self.0 - rhs)
    }

    /// Moves the address `rhs` bytes lower.
    pub fn sub_assign(&mut self, rhs: u64)
        requires
            old(self)@ >= rhs,
            is_valid_phys((old(self)@ - rhs) as u64),
        ensures
            final(self)@ == old(self)@ - rhs,
    {
        *self = self.sub(rhs);
    }

    /// The distance in bytes from `rhs` up to this address.
    pub fn sub_addr(self, rhs: PhysAddr) -> (r: u64)
        requires
            self@ >= rhs@,
        ensures
            r == self@ - rhs@,
    {
        self.0 - rhs.0
    }
}

/// Aligning down gives the greatest multiple of `align` that is at most `addr`.
pub proof fn law_align_down_greatest(addr: u64, align: u64, y: u64)
    requires
        is_power_of_two(align),
        y % align == 0,
        y <= addr,
    ensures
        align_down_spec(addr, align) % (align as int) == 0,
        align_down_spec(addr, align) <= addr,
        y <= align_down_spec(addr, align),
{
    lemma_align_mask(addr, align);
    vstd::arithmetic::div_mod::lemma_fundamental_div_mod(addr as int, align as int);
    vstd::arithmetic::div_mod::lemma_fundamental_div_mod(y as int, align as int);
    vstd::arithmetic::div_mod::lemma_div_is_ordered(y as int, addr as int, align as int);
    vstd::arithmetic::div_mod::lemma_mod_multiples_basic(addr as int / align as int, align as int);
    assert(align * (addr as int / align as int) == (addr as int / align as int) * align)
        by (nonlinear_arith);
    assert(align * (y as int / align as int) <= align * (addr as int / align as int))
        by (nonlinear_arith)
        requires
            y as int / align as int <= addr as int / align as int,
            align > 0,
    ;
}

/// Aligning up gives the smallest multiple of `align` that is at least `addr`.
pub proof fn law_align_up_smallest(addr: u64, align: u64, y: u64)
    requires
        is_power_of_two(align),
        y % align == 0,
        y >= addr,
    ensures
        align_up_spec(addr, align) % (align as int) == 0,
        align_up_spec(addr, align) >= addr,
        align_up_spec(addr, align) <= y,
{
    lemma_align_mask(addr, align);
    let a = align as int;
    let q = addr as int / a;
    vstd::arithmetic::div_mod::lemma_fundamental_div_mod(addr as int, a);
    vstd::arithmetic::div_mod::lemma_fundamental_div_mod(y as int, a);
    vstd::arithmetic::div_mod::lemma_div_is_ordered(addr as int, y as int, a);
    vstd::arithmetic::div_mod::lemma_mod_multiples_basic(q, a);
    vstd::arithmetic::div_mod::lemma_mod_multiples_basic(q + 1, a);
    assert(a * q == q * a) by (nonlinear_arith);
    assert(a * (q + 1) == (q + 1) * a) by (nonlinear_arith);
    if addr % align != 0 {
        let qy = y as int / a;
        assert(addr as int % a == addr % align);
        assert(a * (q + 1) == a * q + a) by (nonlinear_arith);
        assert(align_up_spec(addr, align) == a * (q + 1));
        assert(y as int == a * qy);
        assert(qy >= q);
        assert(qy != q);
        assert(a * qy >= a * (q + 1)) by (nonlinear_arith)
            requires
                qy >= q + 1,
                a > 0,
        ;
    } else {
        assert(align_up_spec(addr, align) == addr);
    }
}

/// An address is aligned exactly when aligning it down leaves it unchanged, and then aligning
/// it up leaves it unchanged too; aligning up gives an aligned address that aligning down keeps.
pub proof fn law_aligned_fixed_points(addr: u64, align: u64)
    requires
        is_power_of_two(align),
    ensures
        (addr % align == 0) == (align_down_spec(addr, align) == addr),
        addr % align == 0 ==> align_up_spec(addr, align) == addr,
        align_up_spec(addr, align) <= u64::MAX ==> align_down_spec(
            align_up_spec(addr, align) as u64,
            align,
        ) == align_up_spec(addr, align),
{
    lemma_align_mask(addr, align);
    let a = align as int;
    let q = addr as int / a;
    vstd::arithmetic::div_mod::lemma_fundamental_div_mod(addr as int, a);
    vstd::arithmetic::div_mod::lemma_mod_multiples_basic(q + 1, a);
    assert(a * (q + 1) == (q + 1) * a) by (nonlinear_arith);
    assert(a * (q + 1) == a * q + a) by (nonlinear_arith);
    if addr % align != 0 {
        assert(align_up_spec(addr, align) == a * (q + 1));
    }
}

/// Sign extension always yields a canonical address, leaves a canonical address unchanged and
/// is idempotent.
pub proof fn law_sign_extend(addr: u64)
    ensures
        is_canonical(sign_extend(addr)),
        is_canonical(addr) ==> sign_extend(addr) == addr,
        sign_extend(sign_extend(addr)) == sign_extend(addr),
{
    lemma_sign_extend_facts(addr);
    lemma_sign_extend_facts(sign_extend(addr));
}

/// A canonical address is the sign extension of its four 9-bit table indices and its 12-bit
/// page offset, put back at their bit positions.
pub proof fn law_address_decomposition(addr: u64)
    requires
        is_canonical(addr),
    ensures
        addr == sign_extend(
            ((addr / 0x80_0000_0000) % 512 * 0x80_0000_0000 + (addr / 0x4000_0000) % 512
                * 0x4000_0000 + (addr / 0x20_0000) % 512 * 0x20_0000 + (addr / 0x1000) % 512
                * 0x1000 + addr % 0x1000) as u64,
        ),
{
    assert((addr / 0x80_0000_0000) % 512 * 0x80_0000_0000 + (addr / 0x4000_0000) % 512
        * 0x4000_0000 + (addr / 0x20_0000) % 512 * 0x20_0000 + (addr / 0x1000) % 512 * 0x1000
        + addr % 0x1000 == addr % 0x1_0000_0000_0000) by (bit_vector);
    lemma_sign_extend_facts(addr);
}

} // verus!
