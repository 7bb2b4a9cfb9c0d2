//! Equality of 64-bit floating-point numbers, read off their bit patterns.

use vstd::prelude::*;

verus! {

/// The bit pattern of the number one.
pub const ONE: u64 = 0x3FF0_0000_0000_0000;

/// The bit pattern without its sign bit.
pub open spec fn magnitude(bits: u64) -> u64 {
    bits % 0x8000_0000_0000_0000
}

/// Whether the pattern stands for no number: all exponent bits set and a nonzero fraction.
pub open spec fn is_nan(bits: u64) -> bool {
    magnitude(bits) > 0x7FF0_0000_0000_0000
}

/// Whether two patterns compare equal as floating-point numbers: neither stands for no
/// number, and they are the same pattern or the two zeros.
pub open spec fn same_number_spec(a: u64, b: u64) -> bool {
    !is_nan(a) && !is_nan(b) && (a == b || (magnitude(a) == 0 && magnitude(b) == 0))
}

/// Compares two bit patterns as floating-point numbers.
pub fn same_number(a: u64, b: u64) -> (r: bool)
    ensures
        r == same_number_spec(a, b),
{
    let left: u64 = a % 0x8000_0000_0000_0000;
    let right: u64 = b % 0x8000_0000_0000_0000;
    let nan: u64 = 0x7FF0_0000_0000_0000;
    left <= nan && right <= nan && (a == b || (left == 0 && right == 0))
}

} // verus!
