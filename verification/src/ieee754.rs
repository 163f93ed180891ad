//! Finiteness of IEEE-754 binary32 / binary64 values given by their bit
//! patterns.
//!
//! A value is finite exactly when its biased exponent field is not all ones
//! (all ones encodes the infinities and the NaNs). Zero (of either sign) is
//! the pattern whose bits other than the sign bit are all clear.

use vstd::prelude::*;

verus! {

/// A binary32 pattern denotes a finite value: its 8-bit exponent is not `0xff`.
pub open spec fn single_is_finite(bits: u32) -> bool {
    (bits >> 23u32) & 0xffu32 != 0xffu32
}

/// A binary64 pattern denotes a finite value: its 11-bit exponent is not `0x7ff`.
pub open spec fn double_is_finite(bits: u64) -> bool {
    (bits >> 52u64) & 0x7ffu64 != 0x7ffu64
}

/// A binary64 pattern denotes `+0.0` or `-0.0`.
pub open spec fn double_is_zero(bits: u64) -> bool {
    bits & 0x7fff_ffff_ffff_ffffu64 == 0u64
}

/// Whether the binary32 value with pattern `bits` is finite.
pub fn is_finite_single(bits: u32) -> (r: bool)
    ensures
        r == single_is_finite(bits),
        r <==> (bits & 0x7f80_0000u32) != 0x7f80_0000u32,
{
    proof {
        lemma_single_finite_exactly(bits);
    }
    (bits >> 23u32) & 0xffu32 != 0xffu32
}

/// Whether the binary64 value with pattern `bits` is finite.
pub fn is_finite_double(bits: u64) -> (r: bool)
    ensures
        r == double_is_finite(bits),
        r <==> (bits & 0x7ff0_0000_0000_0000u64) != 0x7ff0_0000_0000_0000u64,
{
    proof {
        lemma_double_finite_exactly(bits);
    }
    (bits >> 52u64) & 0x7ffu64 != 0x7ffu64
}

/// Whether the binary64 value with pattern `bits` is a zero of either sign.
pub fn is_zero_double(bits: u64) -> (r: bool)
    ensures
        r == double_is_zero(bits),
        r <==> (bits == 0u64 || bits == 0x8000_0000_0000_0000u64),
{
    proof {
        lemma_double_finite_exactly(bits);
    }
    bits & 0x7fff_ffff_ffff_ffffu64 == 0u64
}

/// Every pattern in `s` denotes a finite binary32 value.
pub open spec fn all_single_finite(s: Seq<u32>) -> bool {
    forall|i: int| 0 <= i < s.len() ==> single_is_finite(#[trigger] s[i])
}

/// Every pattern in `s` denotes a finite binary64 value.
pub open spec fn all_double_finite(s: Seq<u64>) -> bool {
    forall|i: int| 0 <= i < s.len() ==> double_is_finite(#[trigger] s[i])
}

/// Whether every binary32 pattern in `values` is finite.
pub fn all_finite_single(values: &[u32]) -> (r: bool)
    ensures
        r == all_single_finite(values@),
{
    let n = values.len();
    for i in 0..n
        invariant
            n == values@.len(),
            forall|j: int| 0 <= j < i ==> single_is_finite(#[trigger] values@[j]),
    {
        if !is_finite_single(values[i]) {
            return false;
        }
    }
    true
}

/// Whether every binary64 pattern in `values` is finite.
pub fn all_finite_double(values: &[u64]) -> (r: bool)
    ensures
        r == all_double_finite(values@),
{
    let n = values.len();
    for i in 0..n
        invariant
            n == values@.len(),
            forall|j: int| 0 <= j < i ==> double_is_finite(#[trigger] values@[j]),
    {
        if !is_finite_double(values[i]) {
            return false;
        }
    }
    true
}


/// A binary32 value is finite exactly when its exponent bits (mask
/// `0x7f80_0000`) are not all set, whatever its sign and fraction: zeros,
/// subnormals and every normal magnitude are finite; only the infinities and
/// the NaNs are not.
pub proof fn lemma_single_finite_exactly(bits: u32)
    ensures
        single_is_finite(bits) <==> (bits & 0x7f80_0000u32) != 0x7f80_0000u32,
        single_is_finite(bits) == single_is_finite(bits ^ 0x8000_0000u32),
        (bits & 0x7f80_0000u32) == 0u32 ==> single_is_finite(bits),
{
    assert(single_is_finite(bits) <==> (bits & 0x7f80_0000u32) != 0x7f80_0000u32)
        by (bit_vector);
    assert(((bits >> 23u32) & 0xffu32 != 0xffu32) == (((bits ^ 0x8000_0000u32) >> 23u32) & 0xffu32
        != 0xffu32)) by (bit_vector);
    assert((bits & 0x7f80_0000u32) == 0u32 ==> (bits >> 23u32) & 0xffu32 != 0xffu32)
        by (bit_vector);
}

/// A binary64 value is finite exactly when its exponent bits (mask
/// `0x7ff0_0000_0000_0000`) are not all set, whatever its sign; it is a zero
/// exactly when it is `+0.0` or `-0.0`.
pub proof fn lemma_double_finite_exactly(bits: u64)
    ensures
        double_is_finite(bits) <==> (bits & 0x7ff0_0000_0000_0000u64) != 0x7ff0_0000_0000_0000u64,
        double_is_finite(bits) == double_is_finite(bits ^ 0x8000_0000_0000_0000u64),
        (bits & 0x7ff0_0000_0000_0000u64) == 0u64 ==> double_is_finite(bits),
        double_is_zero(bits) <==> (bits == 0u64 || bits == 0x8000_0000_0000_0000u64),
        double_is_zero(bits) ==> double_is_finite(bits),
{
    assert(double_is_finite(bits) <==> (bits & 0x7ff0_0000_0000_0000u64)
        != 0x7ff0_0000_0000_0000u64) by (bit_vector);
    assert(((bits >> 52u64) & 0x7ffu64 != 0x7ffu64) == (((bits ^ 0x8000_0000_0000_0000u64)
        >> 52u64) & 0x7ffu64 != 0x7ffu64)) by (bit_vector);
    assert((bits & 0x7ff0_0000_0000_0000u64) == 0u64 ==> (bits >> 52u64) & 0x7ffu64 != 0x7ffu64)
        by (bit_vector);
    assert((bits & 0x7fff_ffff_ffff_ffffu64 == 0u64) <==> (bits == 0u64 || bits
        == 0x8000_0000_0000_0000u64)) by (bit_vector);
    assert(bits & 0x7fff_ffff_ffff_ffffu64 == 0u64 ==> (bits >> 52u64) & 0x7ffu64 != 0x7ffu64)
        by (bit_vector);
}

} // verus!
