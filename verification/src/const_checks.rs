//! Checks on the size of the emulated memory.

use vstd::arithmetic::power2::is_pow2;
use vstd::prelude::*;

verus! {

/// Largest memory size, in bytes: what 16-bit addresses reach.
pub const MAX_ADDRESS_SIZE: usize = 0x10000;

/// A value is a valid memory size when it is a power of two that does not
/// exceed 65536.
pub open spec fn valid_address_size(val: usize) -> bool {
    is_pow2(val as int) && val <= MAX_ADDRESS_SIZE
}

/// Clearing the lowest set bit of an even number and of its half agree.
proof fn lemma_low_bit_step(n: u64)
    by (bit_vector)
    requires
        n >= 2,
        n % 2 == 0,
    ensures
        (n & ((n - 1) as u64)) == 0 <==> ((n / 2) & ((n / 2 - 1) as u64)) == 0,
{
}

/// An odd number above one keeps a bit when its lowest set bit is cleared.
proof fn lemma_low_bit_odd(n: u64)
    by (bit_vector)
    requires
        n >= 2,
        n % 2 == 1,
    ensures
        (n & ((n - 1) as u64)) != 0,
{
}

/// `n & (n - 1)` is zero exactly for the powers of two, among the positive numbers.
proof fn lemma_low_bit_is_pow2(n: u64)
    requires
        n >= 1,
    ensures
        (n & ((n - 1) as u64)) == 0 <==> is_pow2(n as int),
    decreases n,
{
    reveal(is_pow2);
    if n == 1 {
        assert((1u64 & ((1u64 - 1) as u64)) == 0) by (bit_vector);
    } else if n % 2 == 0 {
        lemma_low_bit_step(n);
        lemma_low_bit_is_pow2(n / 2);
    } else {
        lemma_low_bit_odd(n);
    }
}

/// Checks if a value is a power of two. Zero is not one.
pub fn is_power_of_two(val: usize) -> (res: bool)
    ensures
        res == is_pow2(val as int),
{
    if val == 0 {
        proof {
            reveal(is_pow2);
        }
        return false;
    }
    let wide: u64 = val as u64;
    proof {
        lemma_low_bit_is_pow2(wide);
    }
    wide & (wide - 1) == 0
}

/// Checks that the given address size is a power of two and does not exceed 65536.
pub fn is_valid_address_size(val: usize) -> (res: bool)
    ensures
        res == valid_address_size(val),
{
    is_power_of_two(val) && val <= MAX_ADDRESS_SIZE
}

} // verus!
