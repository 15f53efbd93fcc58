//! Widening to binary64: the pattern of the binary64 value nearest to an
//! integer, and the pattern of the binary64 value equal to a binary32 value.

use vstd::prelude::*;
use vstd::arithmetic::power2::{lemma_pow2_adds, lemma2_to64, lemma2_to64_rest, lemma_pow2_strictly_increases, lemma_pow2_unfold, pow2};
use crate::arith::{magnitude, magnitude_of};
use crate::ieee::{
    exponent64, place64, significand64, is_infinite64, is_nan64, is_negative32, is_negative64, is_zero64, magnitude32, INF64, SIGN32,
    SIGN64,
};
use crate::number::Number;

verus! {

/// The pattern of the binary64 NaN that stands for every NaN.
pub const NAN64: u64 = 0x7ff8_0000_0000_0000;

/// A positive integer below 2^64, doubled until it is at least 2^63.
pub open spec fn aligned64(m: int) -> int
    decreases 0x1_0000_0000_0000_0000 - m,
{
    if 0 < m < 0x8000_0000_0000_0000 {
        aligned64(2 * m)
    } else {
        m
    }
}

/// How many doublings take a positive integer to at least 2^63.
pub open spec fn doublings64(m: int) -> int
    decreases 0x1_0000_0000_0000_0000 - m,
{
    if 0 < m < 0x8000_0000_0000_0000 {
        1 + doublings64(2 * m)
    } else {
        0
    }
}

/// The binary64 pattern nearest to a positive integer `m` below 2^64, ties
/// to the even significand. With `m` aligned to 64 bits, the upper 53 bits
/// are the significand and the lower 11 decide the rounding; a significand
/// that rounds up to 2^53 carries into the exponent.
pub open spec fn integer_pattern(m: int) -> int {
    let n = aligned64(m);
    let exponent = 1023 + 63 - doublings64(m);
    let kept = n / 2048;
    let rest = n % 2048;
    let up: int = if rest > 1024 || (rest == 1024 && kept % 2 == 1) {
        1
    } else {
        0
    };
    exponent * 0x10_0000_0000_0000 + (kept - 0x10_0000_0000_0000) + up
}

/// The pattern of the binary64 value nearest to a 64-bit integer.
pub open spec fn widened_integer(v: int) -> u64 {
    if v == 0 {
        0
    } else if v < 0 {
        (0x8000_0000_0000_0000 + integer_pattern(-v)) as u64
    } else {
        integer_pattern(v) as u64
    }
}

/// A positive fraction below 2^24, doubled until it is at least 2^23.
pub open spec fn aligned24(f: int) -> int
    decreases 0x100_0000 - f,
{
    if 0 < f < 0x80_0000 {
        aligned24(2 * f)
    } else {
        f
    }
}

/// How many doublings take a positive fraction to at least 2^23.
pub open spec fn doublings24(f: int) -> int
    decreases 0x100_0000 - f,
{
    if 0 < f < 0x80_0000 {
        1 + doublings24(2 * f)
    } else {
        0
    }
}

/// The pattern of the binary64 value equal to a binary32 value. The sign is
/// kept. An infinity widens to the infinity and a NaN to `NAN64`. A normal
/// value keeps its fraction and has its exponent rebiased; a subnormal value
/// is normal in binary64, so its fraction is aligned first.
pub open spec fn widened_single(bits: u32) -> u64 {
    let sign: int = if is_negative32(bits) {
        0x8000_0000_0000_0000
    } else {
        0
    };
    let exponent = magnitude32(bits) / 0x80_0000;
    let fraction = magnitude32(bits) % 0x80_0000;
    if exponent == 255 {
        if fraction == 0 {
            (sign + 0x7ff0_0000_0000_0000) as u64
        } else {
            0x7ff8_0000_0000_0000
        }
    } else if exponent == 0 {
        if fraction == 0 {
            sign as u64
        } else {
            (sign + (897 - doublings24(fraction)) * 0x10_0000_0000_0000 + (aligned24(fraction)
                - 0x80_0000) * 0x2000_0000) as u64
        }
    } else {
        (sign + (exponent + 896) * 0x10_0000_0000_0000 + fraction * 0x2000_0000) as u64
    }
}

/// The pattern of the binary64 value nearest to `v`, ties to even.
pub fn widen_integer(v: i64) -> (r: u64)
    ensures
        r == widened_integer(v as int),
{
    if v == 0 {
        return 0;
    }
    let m: u64 = magnitude_of(v);
    let mut n: u64 = m;
    let mut z: u64 = 0;
    proof {
        lemma2_to64();
    }
    while n < 0x8000_0000_0000_0000
        invariant
            n >= 1,
            z <= 63,
            n >= pow2(z as nat),
            aligned64(n as int) == aligned64(m as int),
            z + doublings64(n as int) == doublings64(m as int),
        decreases 0x1_0000_0000_0000_0000 - n,
    {
        proof {
            lemma_pow2_unfold((z + 1) as nat);
            if z >= 63 {
                if z > 63 {
                    lemma_pow2_strictly_increases(63, z as nat);
                }
                lemma2_to64_rest();
            }
        }
        n = n * 2;
        z = z + 1;
    }
    let kept: u64 = n / 2048;
    let rest: u64 = n % 2048;
    let up: u64 = if rest > 1024 || (rest == 1024 && kept % 2 == 1) {
        1
    } else {
        0
    };
    let pattern: u64 = (1086 - z) * 0x10_0000_0000_0000 + (kept - 0x10_0000_0000_0000) + up;
    if v < 0 {
        pattern + SIGN64
    } else {
        pattern
    }
}

/// The pattern of the binary64 value equal to the binary32 value `bits`.
pub fn widen_single(bits: u32) -> (r: u64)
    ensures
        r == widened_single(bits),
{
    let sign: u64 = if bits >= SIGN32 {
        SIGN64
    } else {
        0
    };
    let magnitude: u32 = bits % SIGN32;
    let exponent: u64 = (magnitude / 0x80_0000) as u64;
    let fraction: u64 = (magnitude % 0x80_0000) as u64;
    if exponent == 255 {
        if fraction == 0 {
            sign + INF64
        } else {
            NAN64
        }
    } else if exponent == 0 {
        if fraction == 0 {
            sign
        } else {
            let mut n: u64 = fraction;
            let mut z: u64 = 0;
            proof {
                lemma2_to64();
            }
            while n < 0x80_0000
                invariant
                    n >= 1,
                    n < 0x100_0000,
                    z <= 23,
                    n >= pow2(z as nat),
                    aligned24(n as int) == aligned24(fraction as int),
                    z + doublings24(n as int) == doublings24(fraction as int),
                decreases 0x100_0000 - n,
            {
                proof {
                    lemma_pow2_unfold((z + 1) as nat);
                    if z >= 23 {
                        if z > 23 {
                            lemma_pow2_strictly_increases(23, z as nat);
                        }
                        lemma2_to64();
                    }
                }
                n = n * 2;
                z = z + 1;
            }
            sign + (897 - z) * 0x10_0000_0000_0000 + (n - 0x80_0000) * 0x2000_0000
        }
    } else {
        sign + (exponent + 896) * 0x10_0000_0000_0000 + fraction * 0x2000_0000
    }
}

impl Number {
    /// The binary64 pattern that this number widens to: the infinity or the
    /// NaN for a special value, the nearest value for an integer, the equal
    /// value for a binary32 payload, the payload itself for binary64.
    pub open spec fn widened(self) -> u64 {
        match self {
            Number::PositiveInfinity => 0x7ff0_0000_0000_0000,
            Number::NegativeInfinity => 0xfff0_0000_0000_0000,
            Number::NaN => 0x7ff8_0000_0000_0000,
            Number::Integer64(v) => widened_integer(v as int),
            Number::Integer32(v) => widened_integer(v as int),
            Number::Integer16(v) => widened_integer(v as int),
            Number::Integer8(v) => widened_integer(v as int),
            Number::Float64(b) => b,
            Number::Float32(b) => widened_single(b),
        }
    }

    /// Widens this number to binary64 and gives the pattern.
    pub fn to_f64(&self) -> (r: u64)
        ensures
            r == self.widened(),
    {
        match self {
            Number::PositiveInfinity => INF64,
            Number::NegativeInfinity => SIGN64 + INF64,
            Number::NaN => NAN64,
            Number::Integer64(v) => widen_integer(*v),
            Number::Integer32(v) => widen_integer(*v as i64),
            Number::Integer16(v) => widen_integer(*v as i64),
            Number::Integer8(v) => widen_integer(*v as i64),
            Number::Float64(b) => *b,
            Number::Float32(b) => widen_single(*b),
        }
    }
}

/// Aligning a positive integer below 2^64 takes at most 63 doublings and
/// ends between 2^63 and 2^64.
pub proof fn lemma_aligned64(m: int)
    requires
        0 < m < 0x1_0000_0000_0000_0000,
    ensures
        0x8000_0000_0000_0000 <= aligned64(m) < 0x1_0000_0000_0000_0000,
        0 <= doublings64(m) <= 63,
        aligned64(m) == m * pow2(doublings64(m) as nat),
    decreases 0x1_0000_0000_0000_0000 - m,
{
    lemma2_to64();
    if m < 0x8000_0000_0000_0000 {
        lemma_aligned64(2 * m);
        let d = doublings64(2 * m) as nat;
        let p = pow2(d) as int;
        lemma_pow2_unfold(d + 1);
        assert(pow2(d + 1) == 2 * p);
        assert((2 * m) * p == m * (2 * p)) by (nonlinear_arith);
        assert(doublings64(m) as nat == d + 1);
        assert(aligned64(m) == m * pow2(d + 1));
        if d + 1 >= 64 {
            if d + 1 > 64 {
                lemma_pow2_strictly_increases(64, d + 1);
            }
            assert(m * pow2(d + 1) >= pow2(d + 1)) by (nonlinear_arith)
                requires
                    m >= 1,
            ;
        }
    } else {
        assert(doublings64(m) == 0);
        assert(pow2(0) == 1);
        assert(m * pow2(0) == m);
    }
}

/// Aligning a positive fraction below 2^23 takes between 1 and 23 doublings
/// and ends between 2^23 and 2^24.
pub proof fn lemma_aligned24(f: int)
    requires
        0 < f < 0x100_0000,
    ensures
        0x80_0000 <= aligned24(f) < 0x100_0000,
        0 <= doublings24(f) <= 23,
        f < 0x80_0000 ==> doublings24(f) >= 1,
        aligned24(f) == f * pow2(doublings24(f) as nat),
    decreases 0x100_0000 - f,
{
    lemma2_to64();
    if f < 0x80_0000 {
        lemma_aligned24(2 * f);
        let d = doublings24(2 * f) as nat;
        let p = pow2(d) as int;
        lemma_pow2_unfold(d + 1);
        assert(pow2(d + 1) == 2 * p);
        assert((2 * f) * p == f * (2 * p)) by (nonlinear_arith);
        assert(doublings24(f) as nat == d + 1);
        assert(aligned24(f) == f * pow2(d + 1));
        if d + 1 >= 24 {
            if d + 1 > 24 {
                lemma_pow2_strictly_increases(24, d + 1);
            }
            assert(f * pow2(d + 1) >= pow2(d + 1)) by (nonlinear_arith)
                requires
                    f >= 1,
            ;
        }
    } else {
        assert(doublings24(f) == 0);
        assert(pow2(0) == 1);
        assert(f * pow2(0) == f);
    }
}

/// An integer that is not zero widens to a finite value that is not zero and
/// has the integer's sign.
pub proof fn lemma_integer_widens_to_finite(v: int)
    requires
        -0x8000_0000_0000_0000 <= v <= 0x7fff_ffff_ffff_ffff,
    ensures
        !is_nan64(widened_integer(v)),
        !is_infinite64(widened_integer(v)),
        is_zero64(widened_integer(v)) == (v == 0),
        is_negative64(widened_integer(v)) == (v < 0),
{
    if v != 0 {
        lemma_aligned64(magnitude(v));
    }
}

/// An integer below 2^53 in magnitude widens without rounding: the value of
/// its pattern, the significand times 2 to the power of the exponent field
/// less 1075, is the integer.
pub proof fn lemma_small_integers_widen_exactly(v: int)
    requires
        v != 0,
        -0x20_0000_0000_0000 < v < 0x20_0000_0000_0000,
    ensures
        1023 <= exponent64(widened_integer(v)) <= 1075,
        significand64(widened_integer(v)) == magnitude(v) * pow2(
            (1075 - exponent64(widened_integer(v))) as nat,
        ),
        is_negative64(widened_integer(v)) == (v < 0),
{
    let m = magnitude(v);
    lemma_aligned64(m);
    lemma2_to64();
    let d = doublings64(m) as nat;
    if d < 11 {
        if d < 10 {
            lemma_pow2_strictly_increases(d, 10);
        }
        assert(m * pow2(d) < 0x8000_0000_0000_0000) by (nonlinear_arith)
            requires
                0 < m < 0x20_0000_0000_0000,
                0 < pow2(d) <= 0x400,
        ;
    }
    let rest = pow2((d - 11) as nat) as int;
    lemma_pow2_adds(11, (d - 11) as nat);
    assert(aligned64(m) == (m * rest) * 2048) by (nonlinear_arith)
        requires
            aligned64(m) == m * pow2(d),
            pow2(d) == 2048 * rest,
    ;
    assert(aligned64(m) / 2048 == m * rest);
    assert(aligned64(m) % 2048 == 0);
    assert(integer_pattern(m) == (1086 - d) * 0x10_0000_0000_0000 + (m * rest
        - 0x10_0000_0000_0000));
}

/// An integer of at least 2^53 widens to a value within half a step of it,
/// where the step is the distance between neighbouring binary64 values of
/// the integer's magnitude.
pub proof fn lemma_large_integers_widen_to_the_nearest(m: int)
    requires
        0x20_0000_0000_0000 <= m < 0x1_0000_0000_0000_0000,
    ensures
        doublings64(m) <= 10,
        exponent64(integer_pattern(m) as u64) >= 1076,
        ({
            let wide = integer_pattern(m) as u64;
            let step = pow2((11 - doublings64(m)) as nat) as int;
            let value = significand64(wide) * pow2((exponent64(wide) - 1075) as nat);
            2 * (value - m) <= step && 2 * (m - value) <= step
        }),
{
    lemma_aligned64(m);
    lemma2_to64();
    let d = doublings64(m) as nat;
    let scale = pow2(d) as int;
    if d > 10 {
        if d > 11 {
            lemma_pow2_strictly_increases(11, d);
        }
        assert(m * scale >= 0x1_0000_0000_0000_0000) by (nonlinear_arith)
            requires
                m >= 0x20_0000_0000_0000,
                scale >= 0x800,
        ;
    }
    let step = pow2((11 - d) as nat) as int;
    lemma_pow2_adds(d, (11 - d) as nat);
    lemma_pow2_unfold((12 - d) as nat);
    vstd::arithmetic::power2::lemma_pow2_pos(d);
    vstd::arithmetic::power2::lemma_pow2_pos((11 - d) as nat);
    assert(scale * step == 2048);
    let n = aligned64(m);
    let kept = n / 2048;
    let rest = n % 2048;
    let up: int = if rest > 1024 || (rest == 1024 && kept % 2 == 1) {
        1
    } else {
        0
    };
    // what is cut off, counted in units of the integer
    let cut = m - step * kept;
    assert(rest == scale * cut) by (nonlinear_arith)
        requires
            n == m * scale,
            n == 2048 * kept + rest,
            scale * step == 2048,
            cut == m - step * kept,
    ;
    assert(0 <= cut < step) by (nonlinear_arith)
        requires
            rest == scale * cut,
            scale * step == 2048,
            scale > 0,
            0 <= rest < 2048,
    ;
    assert(up == 0 ==> 2 * cut <= step) by (nonlinear_arith)
        requires
            rest == scale * cut,
            scale * step == 2048,
            scale > 0,
            up == 0 ==> rest <= 1024,
    ;
    assert(up == 1 ==> 2 * cut >= step) by (nonlinear_arith)
        requires
            rest == scale * cut,
            scale * step == 2048,
            scale > 0,
            up == 1 ==> rest >= 1024,
    ;
    let wide = integer_pattern(m) as u64;
    assert(integer_pattern(m) == (1086 - d) * 0x10_0000_0000_0000 + (kept - 0x10_0000_0000_0000)
        + up);
    let value = significand64(wide) * pow2((exponent64(wide) - 1075) as nat);
    if kept + up < 0x20_0000_0000_0000 {
        assert(exponent64(wide) == 1086 - d);
        assert(significand64(wide) == kept + up);
        assert(value == (kept + up) * step);
    } else {
        assert(kept + up == 0x20_0000_0000_0000);
        assert(integer_pattern(m) == (1087 - d) * 0x10_0000_0000_0000);
        assert(exponent64(wide) == 1087 - d);
        assert(significand64(wide) == 0x10_0000_0000_0000);
        assert(pow2((12 - d) as nat) == 2 * step);
        assert(value == (kept + up) * step) by (nonlinear_arith)
            requires
                value == 0x10_0000_0000_0000 * (2 * step),
                kept + up == 0x20_0000_0000_0000,
        ;
    }
    assert(value - m == up * step - cut) by (nonlinear_arith)
        requires
            value == (kept + up) * step,
            cut == m - step * kept,
    ;
    assert(up == 0 || up == 1);
    assert(up * step == if up == 1 { step } else { 0 }) by (nonlinear_arith)
        requires
            up == 0 || up == 1,
    ;
}

/// The larger of two positive integers takes no more doublings to align.
proof fn lemma_doublings_fall(a: int, b: int)
    requires
        0 < a <= b < 0x1_0000_0000_0000_0000,
    ensures
        doublings64(a) >= doublings64(b),
    decreases 0x1_0000_0000_0000_0000 - a,
{
    if b < 0x8000_0000_0000_0000 {
        lemma_doublings_fall(2 * a, 2 * b);
    } else {
        lemma_aligned64(a);
    }
}

/// The patterns of positive integers are ordered as the integers are: the
/// rounding never puts a smaller integer above a larger one.
pub proof fn lemma_integer_pattern_rises(a: int, b: int)
    requires
        0 < a <= b < 0x1_0000_0000_0000_0000,
    ensures
        integer_pattern(a) <= integer_pattern(b),
{
    lemma_aligned64(a);
    lemma_aligned64(b);
    lemma_doublings_fall(a, b);
    let d = doublings64(b) as nat;
    if doublings64(a) == d {
        vstd::arithmetic::power2::lemma_pow2_pos(d);
        assert(a * pow2(d) <= b * pow2(d)) by (nonlinear_arith)
            requires
                a <= b,
                pow2(d) > 0,
        ;
    }
}

/// Widening keeps the order of integers: of two 64-bit integers, the
/// smaller widens to a value that is not above the other's.
pub proof fn lemma_widening_keeps_order(x: int, y: int)
    requires
        -0x8000_0000_0000_0000 <= x <= y <= 0x7fff_ffff_ffff_ffff,
    ensures
        place64(widened_integer(x)) <= place64(widened_integer(y)),
{
    if x != 0 {
        lemma_aligned64(magnitude(x));
    }
    if y != 0 {
        lemma_aligned64(magnitude(y));
    }
    if 0 < x {
        lemma_integer_pattern_rises(x, y);
    } else if y < 0 {
        lemma_integer_pattern_rises(-y, -x);
    }
}

/// Different integers below 2^53 in magnitude widen to different values, so
/// the smaller of two widens to a value below the other's.
pub proof fn lemma_small_integers_stay_apart(x: int, y: int)
    requires
        -0x20_0000_0000_0000 < x < y < 0x20_0000_0000_0000,
    ensures
        place64(widened_integer(x)) < place64(widened_integer(y)),
{
    lemma_widening_keeps_order(x, y);
    if x != 0 {
        lemma_aligned64(magnitude(x));
        lemma_small_integers_widen_exactly(x);
    }
    if y != 0 {
        lemma_aligned64(magnitude(y));
        lemma_small_integers_widen_exactly(y);
    }
    if x != 0 && y != 0 && widened_integer(x) == widened_integer(y) {
        let k = (1075 - exponent64(widened_integer(x))) as nat;
        vstd::arithmetic::power2::lemma_pow2_pos(k);
        assert(magnitude(x) == magnitude(y)) by (nonlinear_arith)
            requires
                magnitude(x) * pow2(k) == magnitude(y) * pow2(k),
                pow2(k) > 0,
        ;
    }
}

/// Widening keeps what a number is: a NaN widens to a NaN, an infinity to an
/// infinity, a zero to a zero and nothing else does; and a number that is not
/// a NaN keeps its sign.
pub proof fn lemma_widening_keeps_class(n: Number)
    ensures
        is_nan64(n.widened()) == n.nan(),
        is_infinite64(n.widened()) == n.infinite(),
        is_zero64(n.widened()) == n.zero(),
        !n.nan() ==> is_negative64(n.widened()) == n.negative(),
{
    match n {
        Number::Integer64(v) => lemma_integer_widens_to_finite(v as int),
        Number::Integer32(v) => lemma_integer_widens_to_finite(v as int),
        Number::Integer16(v) => lemma_integer_widens_to_finite(v as int),
        Number::Integer8(v) => lemma_integer_widens_to_finite(v as int),
        Number::Float32(b) => {
            let fraction = magnitude32(b) % 0x80_0000;
            if 0 < fraction {
                lemma_aligned24(fraction);
            }
        },
        _ => {},
    }
}

/// The narrowest variant of an integer widens to the binary64 value nearest
/// to that integer.
pub proof fn lemma_narrowest_widens_to_the_integer(m: i64)
    ensures
        Number::narrowest(m).widened() == widened_integer(m as int),
{
}

} // verus!
