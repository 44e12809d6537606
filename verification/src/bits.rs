//! Bit-range access on `u64` values, through the `bit_field` crate.
use bit_field::BitField;
use vstd::arithmetic::power2::pow2;
use vstd::prelude::*;

verus! {

/// Calls `<u64 as BitField>::get_bits(start..end)`.
///
/// The crate's source shifts away the bits above `end` and then those below `start`, so the
/// result is the number held in bits `start..end`. It asserts `start < end <= 64`.
#[verifier::external_body]
pub(crate) fn get_bits(x: u64, start: usize, end: usize) -> (r: u64)
    requires
        start < end <= 64,
    ensures
        r as nat == (x as nat / pow2(start as nat)) % pow2((end - start) as nat),
{
    x.get_bits(start..end)
}

/// Calls `<u64 as BitField>::get_bit(bit)`.
///
/// The crate's source tests `x & (1 << bit) != 0`, so the result is bit `bit` of `x`. It
/// asserts `bit < 64`.
#[verifier::external_body]
pub(crate) fn get_bit(x: u64, bit: usize) -> (r: bool)
    requires
        bit < 64,
    ensures
        r == ((x as nat / pow2(bit as nat)) % 2 == 1),
{
    x.get_bit(bit)
}

/// Calls `<u64 as BitField>::set_bits(start..end, value)` on a copy of `x` and returns it.
///
/// The crate's source clears bits `start..end` of `x` and ors in `value << start`. It asserts
/// `start < end <= 64` and that `value` fits in `end - start` bits.
#[verifier::external_body]
pub(crate) fn set_bits(x: u64, start: usize, end: usize, value: u64) -> (r: u64)
    requires
        start < end <= 64,
        value < pow2((end - start) as nat),
    ensures
        r as nat == x as nat - ((x as nat / pow2(start as nat)) % pow2((end - start) as nat))
            * pow2(start as nat) + value as nat * pow2(start as nat),
{
    let mut y = x;
    y.set_bits(start..end, value);
    y
}

} // verus!
