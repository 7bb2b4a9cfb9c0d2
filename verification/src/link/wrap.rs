//! Conversions between signed and unsigned 64-bit integers that keep the bits.

use vstd::prelude::*;

verus! {

/// The unsigned reading of the 64 bits of `m`.
pub open spec fn as_unsigned(m: i64) -> int {
    if m >= 0 {
        m as int
    } else {
        m + 0x1_0000_0000_0000_0000
    }
}

/// The signed reading of the 64 bits of `u`.
pub open spec fn as_signed(u: u64) -> int {
    if u < 0x8000_0000_0000_0000 {
        u as int
    } else {
        u - 0x1_0000_0000_0000_0000
    }
}

/// Reads the bits of `m` as unsigned.
pub fn to_unsigned(m: i64) -> (u: u64)
    ensures
        u == as_unsigned(m),
{
    assert(m < 0 ==> (m as u64) == m + 0x1_0000_0000_0000_0000) by (bit_vector);
    m as u64
}

/// Reads the bits of `u` as signed.
pub fn to_signed(u: u64) -> (m: i64)
    ensures
        m == as_signed(u),
{
    assert(u >= 0x8000_0000_0000_0000 ==> (u as i64) == u - 0x1_0000_0000_0000_0000) by (bit_vector);
    u as i64
}

} // verus!
