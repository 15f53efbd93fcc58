//! Narrowing to binary32: the binary32 pattern that a binary64 value rounds
//! to, where the rounding moves the value by less than binary64 machine
//! epsilon.

use vstd::prelude::*;
use vstd::arithmetic::power2::{lemma2_to64, lemma2_to64_rest, lemma_pow2_strictly_increases, lemma_pow2_unfold, pow2};
use vstd::arithmetic::div_mod::{lemma_div_multiples_vanish, lemma_mod_multiples_basic};
use vstd::arithmetic::power2::lemma_pow2_adds;
use crate::ieee::{
    exponent64, scaled64, significand64, is_infinite32, is_nan32, is_negative32, is_negative64, magnitude32, magnitude64, SIGN32, SIGN64,
};
use crate::widen::{aligned24, doublings24, lemma_aligned24, widened_single};

verus! {

/// Whether `value / unit` rounds up to the nearest integer: past the half,
/// or at the half with an odd quotient.
pub open spec fn rounds_up(value: int, unit: int) -> bool {
    2 * (value % unit) > unit || (2 * (value % unit) == unit && (value / unit) % 2 == 1)
}

/// `value / unit`, rounded to the nearest integer, ties to the even one.
pub open spec fn rounded_quotient(value: int, unit: int) -> int {
    if rounds_up(value, unit) {
        value / unit + 1
    } else {
        value / unit
    }
}

/// How far `value` is from the multiple of `unit` that it rounds to.
pub open spec fn rounding_distance(value: int, unit: int) -> int {
    if rounds_up(value, unit) {
        unit - value % unit
    } else {
        value % unit
    }
}

/// The binary32 pattern of a finite binary64 value that lies within binary64
/// machine epsilon, 2^-52, of its rounding to binary32; nothing for every
/// other pattern.
///
/// With `e` the exponent field and `s` the 53-bit significand, the value is
/// `s * 2^(e - 1075)`.
/// - Below 2^-150 the value rounds to zero.
/// - Below 2^-126 it rounds to a multiple of 2^-149, a binary32 subnormal.
///   Both roundings move it by less than epsilon.
/// - Up to the binary32 maximum the significand is rounded to 24 bits, which
///   moves the value by `distance * 2^(e - 1075)`: less than epsilon where
///   `distance < 2^(1023 - e)`, and for a value of at least 1 only where it
///   does not move at all.
/// - Beyond that, binary32 has only the infinity.
pub open spec fn narrowed_single(bits: u64) -> Option<u32> {
    let sign: int = if is_negative64(bits) {
        0x8000_0000
    } else {
        0
    };
    let exponent = magnitude64(bits) / 0x10_0000_0000_0000;
    let significand = 0x10_0000_0000_0000 + magnitude64(bits) % 0x10_0000_0000_0000;
    if exponent == 2047 {
        None
    } else if exponent < 873 {
        Some(sign as u32)
    } else if exponent < 897 {
        Some((sign + rounded_quotient(significand, pow2((926 - exponent) as nat) as int)) as u32)
    } else if exponent <= 1150 {
        let kept = rounded_quotient(significand, 0x2000_0000);
        let distance = rounding_distance(significand, 0x2000_0000);
        let close = if exponent >= 1023 {
            distance == 0
        } else {
            distance < pow2((1023 - exponent) as nat)
        };
        if close {
            Some((sign + (exponent - 896) * 0x80_0000 + (kept - 0x80_0000)) as u32)
        } else {
            None
        }
    } else {
        None
    }
}

/// 2 to the power of `k`.
fn power_of_two(k: u64) -> (r: u64)
    requires
        k <= 63,
    ensures
        r == pow2(k as nat),
{
    let mut r: u64 = 1;
    let mut i: u64 = 0;
    proof {
        lemma2_to64();
    }
    while i < k
        invariant
            i <= k,
            k <= 63,
            r == pow2(i as nat),
        decreases k - i,
    {
        proof {
            lemma_pow2_unfold((i + 1) as nat);
            lemma2_to64_rest();
            if i + 1 < 63 {
                lemma_pow2_strictly_increases((i + 1) as nat, 63);
            }
        }
        r = r * 2;
        i = i + 1;
    }
    r
}

/// Rounds `value / unit` to the nearest integer, ties to even, and tells
/// how far that moved `value`.
fn round(value: u64, unit: u64) -> (r: (u64, u64))
    requires
        0 < unit <= 0x20_0000_0000_0000,
        value < 0x20_0000_0000_0000,
    ensures
        r.0 == rounded_quotient(value as int, unit as int),
        r.1 == rounding_distance(value as int, unit as int),
        r.0 <= value / unit + 1,
        2 * r.1 <= unit,
{
    let kept: u64 = value / unit;
    let rest: u64 = value % unit;
    if 2 * rest > unit || (2 * rest == unit && kept % 2 == 1) {
        (kept + 1, unit - rest)
    } else {
        (kept, rest)
    }
}

/// The binary32 pattern that `bits` narrows to, where the value is finite
/// and the rounding moves it by less than binary64 machine epsilon.
pub fn narrow_single(bits: u64) -> (r: Option<u32>)
    ensures
        r == narrowed_single(bits),
{
    let sign: u32 = if bits >= SIGN64 {
        SIGN32
    } else {
        0
    };
    let magnitude: u64 = bits % SIGN64;
    let exponent: u64 = magnitude / 0x10_0000_0000_0000;
    let significand: u64 = 0x10_0000_0000_0000 + magnitude % 0x10_0000_0000_0000;
    if exponent == 2047 {
        None
    } else if exponent < 873 {
        Some(sign)
    } else if exponent < 897 {
        let unit: u64 = power_of_two(926 - exponent);
        proof {
            lemma2_to64();
            lemma2_to64_rest();
            if 926 - exponent > 30 {
                lemma_pow2_strictly_increases(30, (926 - exponent) as nat);
            }
            if 926 - exponent < 53 {
                lemma_pow2_strictly_increases((926 - exponent) as nat, 53);
            }
            assert(significand as int / unit as int <= 0x80_0000) by (nonlinear_arith)
                requires
                    significand < 0x20_0000_0000_0000,
                    unit >= 0x4000_0000,
            ;
        }
        let (quotient, _) = round(significand, unit);
        Some(sign + quotient as u32)
    } else if exponent <= 1150 {
        let (kept, distance) = round(significand, 0x2000_0000);
        let close = if exponent >= 1023 {
            distance == 0
        } else if exponent <= 994 {
            proof {
                lemma2_to64();
                if 1023 - exponent > 29 {
                    lemma_pow2_strictly_increases(29, (1023 - exponent) as nat);
                }
            }
            true
        } else {
            distance < power_of_two(1023 - exponent)
        };
        if close {
            Some(sign + ((exponent - 896) * 0x80_0000 + (kept - 0x80_0000)) as u32)
        } else {
            None
        }
    } else {
        None
    }
}

/// Every finite binary32 value, widened to binary64, narrows back to
/// itself.
pub proof fn lemma_single_survives(bits: u32)
    requires
        !is_nan32(bits),
        !is_infinite32(bits),
    ensures
        narrowed_single(widened_single(bits)) == Some(bits),
{
    let exponent = magnitude32(bits) / 0x80_0000;
    let fraction = magnitude32(bits) % 0x80_0000;
    let wide = widened_single(bits);
    lemma2_to64();
    if exponent == 0 && fraction != 0 {
        lemma_aligned24(fraction);
        let z = doublings24(fraction) as nat;
        let n = aligned24(fraction);
        let unit = pow2(29 + z) as int;
        let significand = 0x10_0000_0000_0000 + (n - 0x80_0000) * 0x2000_0000;
        lemma_pow2_adds(29, z);
        assert(significand == fraction * unit) by (nonlinear_arith)
            requires
                significand == 0x10_0000_0000_0000 + (n - 0x80_0000) * 0x2000_0000,
                n == fraction * pow2(z),
                unit == 0x2000_0000 * pow2(z),
        ;
        assert(unit > 0) by (nonlinear_arith)
            requires
                unit == 0x2000_0000 * pow2(z),
                pow2(z) > 0,
        ;
        lemma_div_multiples_vanish(fraction, unit);
        lemma_mod_multiples_basic(fraction, unit);
        assert(unit * fraction == fraction * unit) by (nonlinear_arith);
        assert(magnitude64(wide) == (897 - z) * 0x10_0000_0000_0000 + (n - 0x80_0000)
            * 0x2000_0000);
        assert(magnitude64(wide) / 0x10_0000_0000_0000 == 897 - z);
        assert((926 - (897 - z)) as nat == 29 + z);
        assert(rounded_quotient(significand, unit) == fraction);
    } else if exponent != 0 {
        let significand = 0x10_0000_0000_0000 + fraction * 0x2000_0000;
        assert(magnitude64(wide) == (exponent + 896) * 0x10_0000_0000_0000 + fraction * 0x2000_0000);
        assert(magnitude64(wide) / 0x10_0000_0000_0000 == exponent + 896);
        assert(significand / 0x2000_0000 == 0x80_0000 + fraction);
        assert(significand % 0x2000_0000 == 0);
        assert(rounding_distance(significand, 0x2000_0000) == 0);
        if exponent + 896 < 1023 {
            vstd::arithmetic::power2::lemma_pow2_pos((1023 - (exponent + 896)) as nat);
        }
    }
}

/// Only a finite value narrows, and what it narrows to is finite and has its
/// sign.
pub proof fn lemma_narrowed_is_finite(bits: u64)
    requires
        narrowed_single(bits) is Some,
    ensures
        magnitude64(bits) < 0x7ff0_0000_0000_0000,
        !is_nan32(narrowed_single(bits).unwrap()),
        !is_infinite32(narrowed_single(bits).unwrap()),
        is_negative32(narrowed_single(bits).unwrap()) == is_negative64(bits),
{
    let exponent = magnitude64(bits) / 0x10_0000_0000_0000;
    let significand = 0x10_0000_0000_0000 + magnitude64(bits) % 0x10_0000_0000_0000;
    lemma2_to64();
    lemma2_to64_rest();
    if 873 <= exponent < 897 {
        let k = (926 - exponent) as nat;
        if k > 30 {
            lemma_pow2_strictly_increases(30, k);
        }
        let unit = pow2(k) as int;
        assert(0 <= significand / unit <= 0x80_0000) by (nonlinear_arith)
            requires
                0 <= significand < 0x20_0000_0000_0000,
                unit >= 0x4000_0000,
        ;
    } else if 897 <= exponent <= 1150 {
        let distance = rounding_distance(significand, 0x2000_0000);
        if exponent < 1023 {
            vstd::arithmetic::power2::lemma_pow2_pos((1023 - exponent) as nat);
        }
        if exponent == 1150 {
            assert(distance == 0);
        }
    }
}

/// The product of a number below a power of two with another power of two
/// is below the power of the summed exponents.
proof fn lemma_scaled_below(x: int, a: nat, b: nat, c: nat)
    requires
        0 <= x < pow2(a),
        a + b <= c,
    ensures
        x * pow2(b) < pow2(c),
{
    lemma_pow2_adds(a, b);
    vstd::arithmetic::power2::lemma_pow2_pos(b);
    if a + b < c {
        lemma_pow2_strictly_increases(a + b, c);
    }
    assert(x * pow2(b) < pow2(a) * pow2(b)) by (nonlinear_arith)
        requires
            0 <= x < pow2(a),
            pow2(b) > 0,
    ;
}

/// The value of a widened binary32 pattern that is finite: its magnitude
/// without the exponent field's share, times 2^925, in units of 2^-1074,
/// for a subnormal value; and the significand over 24 bits, times 2 to the
/// power of the binary64 exponent field less 1, for a normal one.
proof fn lemma_widened_value(single: u32)
    requires
        magnitude32(single) < 0x7f80_0000,
    ensures
        magnitude32(single) < 0x80_0000 ==> scaled64(widened_single(single)) == magnitude32(single)
            * pow2(925),
        magnitude32(single) >= 0x80_0000 ==> scaled64(widened_single(single)) == ((0x80_0000
            + magnitude32(single) % 0x80_0000) * 0x2000_0000) * pow2(
            (magnitude32(single) / 0x80_0000 + 895) as nat,
        ),
{
    let exponent = magnitude32(single) / 0x80_0000;
    let fraction = magnitude32(single) % 0x80_0000;
    let wide = widened_single(single);
    lemma2_to64();
    if exponent == 0 {
        if fraction == 0 {
            assert(magnitude64(wide) == 0);
            assert(0 * pow2(925) == 0) by (nonlinear_arith);
        } else {
            lemma_aligned24(fraction);
            let z = doublings24(fraction) as nat;
            let n = aligned24(fraction);
            assert(magnitude64(wide) == (897 - z) * 0x10_0000_0000_0000 + (n - 0x80_0000)
                * 0x2000_0000);
            assert(exponent64(wide) == 897 - z);
            assert(significand64(wide) == n * 0x2000_0000);
            lemma_pow2_adds(z, 29);
            lemma_pow2_adds(z + 29, (896 - z) as nat);
            let high = pow2((896 - z) as nat) as int;
            assert((n * 0x2000_0000) * high == fraction * pow2(925)) by (nonlinear_arith)
                requires
                    n == fraction * pow2(z),
                    pow2(z + 29) == pow2(z) * 0x2000_0000,
                    pow2(925) == pow2(z + 29) * high,
            ;
        }
    } else {
        assert(magnitude64(wide) == (exponent + 896) * 0x10_0000_0000_0000 + fraction
            * 0x2000_0000);
        assert(exponent64(wide) == exponent + 896);
        assert(significand64(wide) == (0x80_0000 + fraction) * 0x2000_0000);
    }
}

/// What a binary64 value narrows to is, widened again, within binary64
/// machine epsilon of it: the two values differ by less than 2^1022 units of
/// 2^-1074, and have the same sign.
pub proof fn lemma_narrowed_is_close(bits: u64)
    requires
        narrowed_single(bits) is Some,
    ensures
        ({
            let back = widened_single(narrowed_single(bits).unwrap());
            &&& is_negative64(back) == is_negative64(bits)
            &&& scaled64(back) - scaled64(bits) < pow2(1022)
            &&& scaled64(bits) - scaled64(back) < pow2(1022)
        }),
{
    let single = narrowed_single(bits).unwrap();
    let back = widened_single(single);
    crate::widen::lemma_widening_keeps_class(crate::number::Number::Float32(single));
    let exponent = exponent64(bits);
    let significand = significand64(bits);
    lemma_narrowed_is_finite(bits);
    lemma_widened_value(single);
    lemma2_to64();
    lemma2_to64_rest();
    vstd::arithmetic::power2::lemma_pow2_pos(1022);
    if exponent < 873 {
        assert(magnitude32(single) == 0);
        assert(0 * pow2(925) == 0) by (nonlinear_arith);
        if exponent == 0 {
            lemma_pow2_strictly_increases(52, 1022);
        } else {
            lemma_scaled_below(significand, 53, (exponent - 1) as nat, 1022);
        }
    } else if exponent < 897 {
        let k = (926 - exponent) as nat;
        let unit = pow2(k) as int;
        let low = pow2((exponent - 1) as nat) as int;
        if k > 30 {
            lemma_pow2_strictly_increases(30, k);
        }
        assert(0 <= significand / unit < 0x80_0000) by (nonlinear_arith)
            requires
                0 <= significand < 0x20_0000_0000_0000,
                unit >= 0x4000_0000,
        ;
        let quotient = rounded_quotient(significand, unit);
        assert(magnitude32(single) == quotient);
        // either way the widened value is the quotient in units of 2^-149
        if quotient == 0x80_0000 {
            lemma_pow2_adds(23, 925);
            lemma_pow2_adds(52, 896);
            assert((0x80_0000 * 0x2000_0000) * pow2(896) == quotient * pow2(925)) by (nonlinear_arith)
                requires
                    quotient == 0x80_0000,
                    pow2(948) == 0x80_0000 * pow2(925),
                    pow2(948) == 0x10_0000_0000_0000 * pow2(896),
            ;
        }
        if quotient < 0x80_0000 {
            assert(magnitude32(single) < 0x80_0000);
            assert(scaled64(back) == magnitude32(single) * pow2(925));
        } else {
            assert(magnitude32(single) % 0x80_0000 == 0);
            assert(magnitude32(single) / 0x80_0000 == 1);
            assert(scaled64(back) == ((0x80_0000 + 0) * 0x2000_0000) * pow2(896));
        }
        assert(scaled64(back) == quotient * pow2(925));
        vstd::arithmetic::power2::lemma_pow2_pos((exponent - 1) as nat);
        lemma_pow2_adds(k, (exponent - 1) as nat);
        lemma_pow2_unfold(925);
        vstd::arithmetic::div_mod::lemma_fundamental_div_mod(significand, unit);
        let distance = rounding_distance(significand, unit);
        assert(2 * distance <= unit);
        assert(quotient * unit - significand == distance || significand - quotient * unit
            == distance) by (nonlinear_arith)
            requires
                significand == unit * (significand / unit) + significand % unit,
                quotient == rounded_quotient(significand, unit),
                distance == rounding_distance(significand, unit),
        ;
        let moved = quotient * unit - significand;
        assert(quotient * pow2(925) == (quotient * unit) * low) by (nonlinear_arith)
            requires
                pow2(925) == unit * low,
        ;
        assert((quotient * unit) * low - significand * low == moved * low) by (nonlinear_arith)
            requires
                moved == quotient * unit - significand,
        ;
        assert(scaled64(back) - scaled64(bits) == moved * low);
        assert(2 * (distance * low) <= 2 * pow2(924)) by (nonlinear_arith)
            requires
                2 * distance <= unit,
                low > 0,
                unit * low == 2 * pow2(924),
        ;
        assert(moved * low == distance * low || moved * low == -(distance * low)) by (nonlinear_arith)
            requires
                moved == distance || moved == -distance,
        ;
        assert(distance * low >= 0) by (nonlinear_arith)
            requires
                distance >= 0,
                low > 0,
        ;
        lemma_pow2_strictly_increases(924, 1022);
    } else {
        let kept = rounded_quotient(significand, 0x2000_0000);
        let distance = rounding_distance(significand, 0x2000_0000);
        let low = pow2((exponent - 1) as nat) as int;
        vstd::arithmetic::power2::lemma_pow2_pos((exponent - 1) as nat);
        assert(magnitude32(single) == (exponent - 896) * 0x80_0000 + (kept - 0x80_0000));
        if kept == 0x100_0000 {
            lemma_pow2_unfold(exponent as nat);
            assert(magnitude32(single) / 0x80_0000 == exponent - 895);
            assert(scaled64(back) == (kept * 0x2000_0000) * low) by (nonlinear_arith)
                requires
                    scaled64(back) == (0x80_0000 * 0x2000_0000) * pow2(exponent as nat),
                    pow2(exponent as nat) == 2 * low,
                    kept == 0x100_0000,
            ;
        } else {
            assert(magnitude32(single) / 0x80_0000 == exponent - 896);
            assert(magnitude32(single) % 0x80_0000 == kept - 0x80_0000);
        }
        assert(scaled64(back) == (kept * 0x2000_0000) * low);
        assert(kept * 0x2000_0000 - significand == distance || significand - kept * 0x2000_0000
            == distance);
        if exponent >= 1023 {
            assert(distance == 0);
        } else {
            lemma_pow2_adds((1023 - exponent) as nat, (exponent - 1) as nat);
            assert(distance * low < pow2(1022)) by (nonlinear_arith)
                requires
                    0 <= distance < pow2((1023 - exponent) as nat),
                    pow2(1022) == pow2((1023 - exponent) as nat) * low,
                    low > 0,
            ;
        }
        assert(scaled64(back) - scaled64(bits) < pow2(1022) && scaled64(bits) - scaled64(back)
            < pow2(1022)) by (nonlinear_arith)
            requires
                scaled64(back) == (kept * 0x2000_0000) * low,
                scaled64(bits) == significand * low,
                kept * 0x2000_0000 - significand == distance || significand - kept * 0x2000_0000
                    == distance,
                distance * low < pow2(1022),
                distance >= 0,
                low > 0,
                pow2(1022) > 0,
        ;
    }
}

} // verus!
