//! The numerical acceptance test for probability rows: a row is accepted
//! when its accumulated sum, given as a single-precision bit pattern, lies
//! within four units in the last place (ULPs) of 1.0.

use vstd::prelude::*;

verus! {

/// Bit pattern of the single-precision value 1.0.
pub const ONE_F32_BITS: u32 = 0x3F80_0000;

/// Position of a single-precision bit pattern on the integer line that
/// orders all such patterns by the value they represent: patterns with the
/// sign bit set (negative values) are complemented, the others keep their
/// magnitude but move below zero.  Adjacent representable values sit at
/// adjacent integers, so differences on this line count representable
/// values, that is, ULPs.
pub open spec fn ulps_order(bits: u32) -> int {
    if bits >= 0x8000_0000 {
        0xFFFF_FFFF - bits
    } else {
        bits - 0x8000_0000
    }
}

/// Number of representable single-precision values between the value the
/// given bit pattern stands for and 1.0.
pub open spec fn ulps_from_one(bits: u32) -> int {
    let d = ulps_order(bits) - ulps_order(ONE_F32_BITS);
    if d < 0 {
        -d
    } else {
        d
    }
}

/// The acceptance test itself: at most four ULPs away from 1.0.  Nothing
/// but the bit pattern of 1.0 is at distance zero, and every NaN pattern
/// is far away, so NaN sums are rejected.
pub open spec fn sum_is_normalized(bits: u32) -> bool {
    ulps_from_one(bits) <= 4
}

/// Decides `sum_is_normalized` on a sum handed in as a bit pattern.
pub fn within_four_ulps_of_one(sum_bits: u32) -> (r: bool)
    ensures
        r == sum_is_normalized(sum_bits),
{
    let o: i64 = if sum_bits >= 0x8000_0000 {
        0xFFFF_FFFFi64 - sum_bits as i64
    } else {
        sum_bits as i64 - 0x8000_0000i64
    };
    let d: i64 = o - (0x3F80_0000i64 - 0x8000_0000i64);
    -4 <= d && d <= 4
}

} // verus!
