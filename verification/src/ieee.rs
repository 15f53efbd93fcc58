//! Classification and ordering of IEEE-754 binary64 and binary32 bit patterns.

use vstd::prelude::*;

verus! {

/// The sign bit of a binary64 pattern.
pub const SIGN64: u64 = 0x8000_0000_0000_0000;

/// The pattern of binary64 positive infinity: all exponent bits, no fraction.
pub const INF64: u64 = 0x7ff0_0000_0000_0000;

/// The sign bit of a binary32 pattern.
pub const SIGN32: u32 = 0x8000_0000;

/// The pattern of binary32 positive infinity.
pub const INF32: u32 = 0x7f80_0000;

/// The pattern without its sign bit.
pub open spec fn magnitude64(bits: u64) -> int {
    bits as int % 0x8000_0000_0000_0000
}

/// Whether the sign bit is set.
pub open spec fn is_negative64(bits: u64) -> bool {
    bits >= 0x8000_0000_0000_0000
}

/// All exponent bits set and a fraction that is not zero.
pub open spec fn is_nan64(bits: u64) -> bool {
    magnitude64(bits) > 0x7ff0_0000_0000_0000
}

/// All exponent bits set and a fraction of zero.
pub open spec fn is_infinite64(bits: u64) -> bool {
    magnitude64(bits) == 0x7ff0_0000_0000_0000
}

/// Neither a NaN nor an infinity: an exponent field below all ones.
pub open spec fn is_finite64(bits: u64) -> bool {
    magnitude64(bits) < 0x7ff0_0000_0000_0000
}

/// Positive or negative zero.
pub open spec fn is_zero64(bits: u64) -> bool {
    magnitude64(bits) == 0
}

/// The exponent field of a binary64 pattern.
pub open spec fn exponent64(bits: u64) -> int {
    magnitude64(bits) / 0x10_0000_0000_0000
}

/// The significand of a normal binary64 pattern, its leading one included.
/// The value of such a pattern is its significand times 2 to the power of
/// its exponent field less 1075.
pub open spec fn significand64(bits: u64) -> int {
    0x10_0000_0000_0000 + magnitude64(bits) % 0x10_0000_0000_0000
}

/// The magnitude of the value of a pattern that is finite, counted in units
/// of 2^-1074, the least positive binary64 value.
pub open spec fn scaled64(bits: u64) -> int {
    if exponent64(bits) == 0 {
        magnitude64(bits)
    } else {
        significand64(bits) * vstd::arithmetic::power2::pow2((exponent64(bits) - 1) as nat)
    }
}

/// The binary32 pattern without its sign bit.
pub open spec fn magnitude32(bits: u32) -> int {
    bits as int % 0x8000_0000
}

/// Whether the sign bit of a binary32 pattern is set.
pub open spec fn is_negative32(bits: u32) -> bool {
    bits >= 0x8000_0000
}

/// All exponent bits of a binary32 pattern set and a fraction that is not
/// zero.
pub open spec fn is_nan32(bits: u32) -> bool {
    magnitude32(bits) > 0x7f80_0000
}

/// All exponent bits of a binary32 pattern set and a fraction of zero.
pub open spec fn is_infinite32(bits: u32) -> bool {
    magnitude32(bits) == 0x7f80_0000
}

/// Positive or negative zero in binary32.
pub open spec fn is_zero32(bits: u32) -> bool {
    magnitude32(bits) == 0
}

/// Whether a binary64 pattern is a NaN.
pub fn nan64(bits: u64) -> (r: bool)
    ensures
        r == is_nan64(bits),
{
    bits % SIGN64 > INF64
}

/// Whether a binary64 pattern is an infinity.
pub fn infinite64(bits: u64) -> (r: bool)
    ensures
        r == is_infinite64(bits),
{
    bits % SIGN64 == INF64
}

/// Whether a binary64 pattern is neither a NaN nor an infinity.
pub fn finite64(bits: u64) -> (r: bool)
    ensures
        r == is_finite64(bits),
        r == (!is_nan64(bits) && !is_infinite64(bits)),
{
    bits % SIGN64 < INF64
}

/// Whether a binary64 pattern is a zero of either sign.
pub fn zero64(bits: u64) -> (r: bool)
    ensures
        r == is_zero64(bits),
{
    bits % SIGN64 == 0
}

/// Whether a binary64 pattern has its sign bit set.
pub fn negative64(bits: u64) -> (r: bool)
    ensures
        r == is_negative64(bits),
{
    bits >= SIGN64
}

/// Whether a binary32 pattern is a NaN.
pub fn nan32(bits: u32) -> (r: bool)
    ensures
        r == is_nan32(bits),
{
    bits % SIGN32 > INF32
}

/// Whether a binary32 pattern is an infinity.
pub fn infinite32(bits: u32) -> (r: bool)
    ensures
        r == is_infinite32(bits),
{
    bits % SIGN32 == INF32
}

/// Whether a binary32 pattern is a zero of either sign.
pub fn zero32(bits: u32) -> (r: bool)
    ensures
        r == is_zero32(bits),
{
    bits % SIGN32 == 0
}

/// Whether a binary32 pattern has its sign bit set.
pub fn negative32(bits: u32) -> (r: bool)
    ensures
        r == is_negative32(bits),
{
    bits >= SIGN32
}

/// How one ordered value stands to another.
#[derive(Clone, Copy, Debug, PartialEq, Eq, Structural)]
pub enum Order {
    Less,
    Equal,
    Greater,
}

/// The place of a pattern that is not a NaN on the number line of patterns:
/// its magnitude, negated under the sign bit. Both zeros have place 0, and a
/// larger value has a larger place.
pub open spec fn place64(bits: u64) -> int {
    if is_negative64(bits) {
        -magnitude64(bits)
    } else {
        magnitude64(bits)
    }
}

/// The IEEE-754 comparison of two binary64 patterns: none where either is a
/// NaN, otherwise the order of their places.
pub open spec fn spec_compare64(a: u64, b: u64) -> Option<Order> {
    if is_nan64(a) || is_nan64(b) {
        None
    } else if place64(a) < place64(b) {
        Some(Order::Less)
    } else if place64(a) == place64(b) {
        Some(Order::Equal)
    } else {
        Some(Order::Greater)
    }
}

/// The IEEE-754 equality of two binary64 patterns.
pub open spec fn spec_equal64(a: u64, b: u64) -> bool {
    spec_compare64(a, b) == Some(Order::Equal)
}

/// Compares two binary64 patterns as the values they encode.
pub fn compare64(a: u64, b: u64) -> (r: Option<Order>)
    ensures
        r == spec_compare64(a, b),
{
    if nan64(a) || nan64(b) {
        return None;
    }
    let ma: u64 = a % SIGN64;
    let mb: u64 = b % SIGN64;
    let na: bool = a >= SIGN64;
    let nb: bool = b >= SIGN64;
    let order = if na && nb {
        // both at or below zero: the larger magnitude is the smaller value
        if ma > mb {
            Order::Less
        } else if ma == mb {
            Order::Equal
        } else {
            Order::Greater
        }
    } else if na {
        if ma == 0 && mb == 0 {
            Order::Equal
        } else {
            Order::Less
        }
    } else if nb {
        if ma == 0 && mb == 0 {
            Order::Equal
        } else {
            Order::Greater
        }
    } else {
        if ma < mb {
            Order::Less
        } else if ma == mb {
            Order::Equal
        } else {
            Order::Greater
        }
    };
    Some(order)
}

/// Whether two binary64 patterns encode equal values.
pub fn equal64(a: u64, b: u64) -> (r: bool)
    ensures
        r == spec_equal64(a, b),
{
    match compare64(a, b) {
        Some(Order::Equal) => true,
        _ => false,
    }
}

/// A NaN is unordered with, and unequal to, every pattern, itself included.
pub proof fn lemma_nan_unordered(a: u64, b: u64)
    requires
        is_nan64(a) || is_nan64(b),
    ensures
        spec_compare64(a, b) is None,
        !spec_equal64(a, b),
{
}

/// Apart from NaNs, every pattern equals itself, and swapping the operands
/// of a comparison mirrors its result.
pub proof fn lemma_compare_mirrors(a: u64, b: u64)
    requires
        !is_nan64(a),
        !is_nan64(b),
    ensures
        spec_equal64(a, a),
        spec_compare64(a, b) == Some(Order::Less) <==> spec_compare64(b, a) == Some(Order::Greater),
        spec_equal64(a, b) <==> spec_equal64(b, a),
{
}

} // verus!
