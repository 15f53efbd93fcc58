//! The five arithmetic operators: NaN first, then the special values, then
//! the integer path, and the floating path last.

use vstd::prelude::*;
use crate::number::{fits, Number};

verus! {

/// What an operator comes to.
#[derive(Clone, Copy, Debug)]
pub enum Outcome {
    /// The result, settled by the special-value and integer rules.
    Settled(Number),
    /// The result is the binary64 operation on the two operands, each widened
    /// to binary64, wrapped as a finite floating value.
    Float,
}

impl Outcome {
    /// The result, given the pattern that the binary64 operation came to:
    /// the settled number, or that pattern wrapped as a finite floating value.
    pub open spec fn completed(self, computed: u64) -> Number {
        match self {
            Outcome::Settled(n) => n,
            Outcome::Float => Number::narrowed(computed),
        }
    }

    /// Completes the outcome with `computed`, the pattern of the binary64
    /// operation on the widened operands, which is used on the floating path
    /// only.
    pub fn finish(self, computed: u64) -> (r: Number)
        ensures
            r == self.completed(computed),
    {
        match self {
            Outcome::Settled(n) => n,
            Outcome::Float => Number::from_float(computed),
        }
    }
}

/// The distance of an integer from zero.
pub open spec fn magnitude(v: int) -> int {
    if v < 0 {
        -v
    } else {
        v
    }
}

/// The quotient of `a` by `b` where `b` is not zero and divides `a`.
pub open spec fn exact_quotient(a: int, b: int) -> Option<int> {
    if b != 0 && magnitude(a) % magnitude(b) == 0 {
        let q = magnitude(a) / magnitude(b);
        Some(if (a < 0) != (b < 0) { -q } else { q })
    } else {
        None
    }
}

/// The remainder of `a` by `b` that takes the sign of `a`.
pub open spec fn remainder(a: int, b: int) -> int
    recommends
        b != 0,
{
    let r = magnitude(a) % magnitude(b);
    if a < 0 {
        -r
    } else {
        r
    }
}

/// An integer result: the narrowest variant where 64 bits hold it, the
/// floating path where they do not.
pub open spec fn integer_outcome(v: int) -> Outcome {
    if fits(v, 64) {
        Outcome::Settled(Number::narrowest(v as i64))
    } else {
        Outcome::Float
    }
}

/// Whether both operands are integer variants, of whatever widths.
pub open spec fn both_integers(a: Number, b: Number) -> bool {
    a.integer() is Some && b.integer() is Some
}

/// The sum: NaN first, then the infinities, then the integer sum, and the
/// floating path for the rest.
pub open spec fn spec_add(a: Number, b: Number) -> Outcome {
    if a.nan() || b.nan() {
        Outcome::Settled(Number::NaN)
    } else if (a is PositiveInfinity && b is NegativeInfinity) || (a is NegativeInfinity
        && b is PositiveInfinity) {
        Outcome::Settled(Number::NaN)
    } else if a is PositiveInfinity || b is PositiveInfinity {
        Outcome::Settled(Number::PositiveInfinity)
    } else if a is NegativeInfinity || b is NegativeInfinity {
        Outcome::Settled(Number::NegativeInfinity)
    } else if both_integers(a, b) {
        integer_outcome(a.integer().unwrap() + b.integer().unwrap())
    } else {
        Outcome::Float
    }
}

/// The difference: NaN first, then the infinities, then the integer
/// difference, and the floating path for the rest.
pub open spec fn spec_sub(a: Number, b: Number) -> Outcome {
    if a.nan() || b.nan() {
        Outcome::Settled(Number::NaN)
    } else if (a is PositiveInfinity && b is PositiveInfinity) || (a is NegativeInfinity
        && b is NegativeInfinity) {
        Outcome::Settled(Number::NaN)
    } else if a is PositiveInfinity {
        Outcome::Settled(Number::PositiveInfinity)
    } else if a is NegativeInfinity {
        Outcome::Settled(Number::NegativeInfinity)
    } else if b is PositiveInfinity {
        Outcome::Settled(Number::NegativeInfinity)
    } else if b is NegativeInfinity {
        Outcome::Settled(Number::PositiveInfinity)
    } else if both_integers(a, b) {
        integer_outcome(a.integer().unwrap() - b.integer().unwrap())
    } else {
        Outcome::Float
    }
}

/// The product: NaN first, then an infinity with a zero, then an infinity
/// with anything else, then the integer product, and the floating path for
/// the rest.
pub open spec fn spec_mul(a: Number, b: Number) -> Outcome {
    if a.nan() || b.nan() {
        Outcome::Settled(Number::NaN)
    } else if (a.infinite() && b.zero()) || (b.infinite() && a.zero()) {
        Outcome::Settled(Number::NaN)
    } else if a.infinite() || b.infinite() {
        // an infinity times anything but zero is an infinity whose sign is
        // the product of the signs
        if a.negative() != b.negative() {
            Outcome::Settled(Number::NegativeInfinity)
        } else {
            Outcome::Settled(Number::PositiveInfinity)
        }
    } else if both_integers(a, b) {
        integer_outcome(a.integer().unwrap() * b.integer().unwrap())
    } else {
        Outcome::Float
    }
}

/// The quotient: NaN first, then zero by zero and infinity by infinity,
/// then the integer quotient where it is exact, and the floating path for
/// the rest.
pub open spec fn spec_div(a: Number, b: Number) -> Outcome {
    if a.nan() || b.nan() {
        Outcome::Settled(Number::NaN)
    } else if a.zero() && b.zero() {
        Outcome::Settled(Number::NaN)
    } else if a.infinite() && b.infinite() {
        Outcome::Settled(Number::NaN)
    } else if both_integers(a, b) {
        match exact_quotient(a.integer().unwrap(), b.integer().unwrap()) {
            Some(q) => integer_outcome(q),
            None => Outcome::Float,
        }
    } else {
        Outcome::Float
    }
}

/// The remainder: NaN first, then any infinity and a zero divisor, then the
/// integer remainder, and the floating path for the rest.
pub open spec fn spec_rem(a: Number, b: Number) -> Outcome {
    if a.nan() || b.nan() {
        Outcome::Settled(Number::NaN)
    } else if a.infinite() || b.infinite() {
        Outcome::Settled(Number::NaN)
    } else if b.zero() {
        Outcome::Settled(Number::NaN)
    } else if both_integers(a, b) {
        integer_outcome(remainder(a.integer().unwrap(), b.integer().unwrap()))
    } else {
        Outcome::Float
    }
}

/// The distance of a 64-bit integer from zero.
pub fn magnitude_of(v: i64) -> (r: u64)
    ensures
        r == magnitude(v as int),
{
    if v >= 0 {
        v as u64
    } else {
        (-(v + 1)) as u64 + 1
    }
}

/// Gives a magnitude of at most 2^63 its sign back, where 64 bits hold the
/// result.
fn signed(m: u64, negative: bool) -> (r: Option<i64>)
    requires
        m <= 0x8000_0000_0000_0000,
    ensures
        r is Some <==> fits(if negative { -(m as int) } else { m as int }, 64),
        r is Some ==> r.unwrap() == if negative { -(m as int) } else { m as int },
{
    if !negative {
        if m <= 0x7fff_ffff_ffff_ffff {
            Some(m as i64)
        } else {
            None
        }
    } else if m == 0 {
        Some(0)
    } else {
        Some(-((m - 1) as i64) - 1)
    }
}

/// Divides two 64-bit integers where the divisor is not zero, divides the
/// dividend, and 64 bits hold the quotient.
pub fn divide_exactly(a: i64, b: i64) -> (r: Option<i64>)
    ensures
        match exact_quotient(a as int, b as int) {
            Some(q) => if fits(q, 64) {
                r == Some(q as i64)
            } else {
                r is None
            },
            None => r is None,
        },
{
    if b == 0 {
        return None;
    }
    let ma: u64 = magnitude_of(a);
    let mb: u64 = magnitude_of(b);
    if ma % mb != 0 {
        return None;
    }
    let q: u64 = ma / mb;
    signed(q, (a < 0) != (b < 0))
}

/// The remainder of two 64-bit integers, with the sign of the dividend.
pub fn remainder_of(a: i64, b: i64) -> (r: i64)
    requires
        b != 0,
    ensures
        r == remainder(a as int, b as int),
{
    let ma: u64 = magnitude_of(a);
    let mb: u64 = magnitude_of(b);
    let m: u64 = ma % mb;
    if a < 0 {
        -(m as i64)
    } else {
        m as i64
    }
}

impl Number {
    /// The sum.
    pub fn add(self, rhs: Number) -> (r: Outcome)
        ensures
            r == spec_add(self, rhs),
    {
        if self.is_nan() || rhs.is_nan() {
            return Outcome::Settled(Number::NaN);
        }
        match (self, rhs) {
            (Number::PositiveInfinity, Number::NegativeInfinity) => Outcome::Settled(Number::NaN),
            (Number::NegativeInfinity, Number::PositiveInfinity) => Outcome::Settled(Number::NaN),
            (Number::PositiveInfinity, _) | (_, Number::PositiveInfinity) => Outcome::Settled(
                Number::PositiveInfinity,
            ),
            (Number::NegativeInfinity, _) | (_, Number::NegativeInfinity) => Outcome::Settled(
                Number::NegativeInfinity,
            ),
            _ => match (self.as_integer(), rhs.as_integer()) {
                (Some(a), Some(b)) => match a.checked_add(b) {
                    Some(sum) => Outcome::Settled(Number::from_int(sum)),
                    None => Outcome::Float,
                },
                _ => Outcome::Float,
            },
        }
    }

    /// The difference.
    pub fn sub(self, rhs: Number) -> (r: Outcome)
        ensures
            r == spec_sub(self, rhs),
    {
        if self.is_nan() || rhs.is_nan() {
            return Outcome::Settled(Number::NaN);
        }
        match (self, rhs) {
            (Number::PositiveInfinity, Number::PositiveInfinity) => Outcome::Settled(Number::NaN),
            (Number::NegativeInfinity, Number::NegativeInfinity) => Outcome::Settled(Number::NaN),
            (Number::PositiveInfinity, _) => Outcome::Settled(Number::PositiveInfinity),
            (Number::NegativeInfinity, _) => Outcome::Settled(Number::NegativeInfinity),
            (_, Number::PositiveInfinity) => Outcome::Settled(Number::NegativeInfinity),
            (_, Number::NegativeInfinity) => Outcome::Settled(Number::PositiveInfinity),
            _ => match (self.as_integer(), rhs.as_integer()) {
                (Some(a), Some(b)) => match a.checked_sub(b) {
                    Some(difference) => Outcome::Settled(Number::from_int(difference)),
                    None => Outcome::Float,
                },
                _ => Outcome::Float,
            },
        }
    }

    /// The product.
    pub fn mul(self, rhs: Number) -> (r: Outcome)
        ensures
            r == spec_mul(self, rhs),
    {
        if self.is_nan() || rhs.is_nan() {
            return Outcome::Settled(Number::NaN);
        }
        let self_infinite = self.is_infinite();
        let rhs_infinite = rhs.is_infinite();
        if (self_infinite && rhs.is_zero()) || (rhs_infinite && self.is_zero()) {
            return Outcome::Settled(Number::NaN);
        }
        if self_infinite || rhs_infinite {
            return if self.is_negative() != rhs.is_negative() {
                Outcome::Settled(Number::NegativeInfinity)
            } else {
                Outcome::Settled(Number::PositiveInfinity)
            };
        }
        match (self.as_integer(), rhs.as_integer()) {
            (Some(a), Some(b)) => match a.checked_mul(b) {
                Some(product) => Outcome::Settled(Number::from_int(product)),
                None => Outcome::Float,
            },
            _ => Outcome::Float,
        }
    }

    /// The quotient.
    pub fn div(self, rhs: Number) -> (r: Outcome)
        ensures
            r == spec_div(self, rhs),
    {
        if self.is_nan() || rhs.is_nan() {
            return Outcome::Settled(Number::NaN);
        }
        if rhs.is_zero() && self.is_zero() {
            return Outcome::Settled(Number::NaN);
        }
        if self.is_infinite() && rhs.is_infinite() {
            return Outcome::Settled(Number::NaN);
        }
        match (self.as_integer(), rhs.as_integer()) {
            (Some(a), Some(b)) => match divide_exactly(a, b) {
                Some(quotient) => Outcome::Settled(Number::from_int(quotient)),
                None => Outcome::Float,
            },
            _ => Outcome::Float,
        }
    }

    /// The remainder.
    pub fn rem(self, rhs: Number) -> (r: Outcome)
        ensures
            r == spec_rem(self, rhs),
    {
        if self.is_nan() || rhs.is_nan() {
            return Outcome::Settled(Number::NaN);
        }
        if self.is_infinite() || rhs.is_infinite() {
            return Outcome::Settled(Number::NaN);
        }
        if rhs.is_zero() {
            return Outcome::Settled(Number::NaN);
        }
        match (self.as_integer(), rhs.as_integer()) {
            (Some(a), Some(b)) => Outcome::Settled(Number::from_int(remainder_of(a, b))),
            _ => Outcome::Float,
        }
    }

    /// Adds `rhs` in place. `computed` is the pattern of the binary64
    /// sum of the two operands, each widened to binary64; it is used on
    /// the floating path only.
    pub fn add_assign(&mut self, rhs: Number, computed: u64)
        ensures
            *final(self) == spec_add(*old(self), rhs).completed(computed),
    {
        *self = self.add(rhs).finish(computed);
    }

    /// Subtracts `rhs` in place. `computed` is the pattern of the binary64
    /// difference of the two operands, each widened to binary64; it is used on
    /// the floating path only.
    pub fn sub_assign(&mut self, rhs: Number, computed: u64)
        ensures
            *final(self) == spec_sub(*old(self), rhs).completed(computed),
    {
        *self = self.sub(rhs).finish(computed);
    }

    /// Multiplies by `rhs` in place. `computed` is the pattern of the binary64
    /// product of the two operands, each widened to binary64; it is used on
    /// the floating path only.
    pub fn mul_assign(&mut self, rhs: Number, computed: u64)
        ensures
            *final(self) == spec_mul(*old(self), rhs).completed(computed),
    {
        *self = self.mul(rhs).finish(computed);
    }

    /// Divides by `rhs` in place. `computed` is the pattern of the binary64
    /// quotient of the two operands, each widened to binary64; it is used on
    /// the floating path only.
    pub fn div_assign(&mut self, rhs: Number, computed: u64)
        ensures
            *final(self) == spec_div(*old(self), rhs).completed(computed),
    {
        *self = self.div(rhs).finish(computed);
    }

    /// Takes the remainder by `rhs` in place. `computed` is the pattern of the binary64
    /// remainder of the two operands, each widened to binary64; it is used on
    /// the floating path only.
    pub fn rem_assign(&mut self, rhs: Number, computed: u64)
        ensures
            *final(self) == spec_rem(*old(self), rhs).completed(computed),
    {
        *self = self.rem(rhs).finish(computed);
    }
}

/// A NaN operand makes the result of every operator the `NaN` variant.
pub proof fn lemma_nan_dominates(a: Number, b: Number)
    requires
        a.nan() || b.nan(),
    ensures
        spec_add(a, b) == Outcome::Settled(Number::NaN),
        spec_sub(a, b) == Outcome::Settled(Number::NaN),
        spec_mul(a, b) == Outcome::Settled(Number::NaN),
        spec_div(a, b) == Outcome::Settled(Number::NaN),
        spec_rem(a, b) == Outcome::Settled(Number::NaN),
{
}

/// The sum, difference and product of two integer variants are the integer
/// of the true result in its narrowest variant where 64 bits hold that
/// result, and pass to the floating path exactly where they do not: never an
/// error, never a wrapped value.
pub proof fn lemma_overflow_promotes(a: Number, b: Number)
    requires
        both_integers(a, b),
    ensures
        spec_add(a, b) == integer_outcome(a.integer().unwrap() + b.integer().unwrap()),
        spec_sub(a, b) == integer_outcome(a.integer().unwrap() - b.integer().unwrap()),
        spec_mul(a, b) == integer_outcome(a.integer().unwrap() * b.integer().unwrap()),
{
}

/// An integer outcome is the floating path exactly where the value is
/// outside 64 bits; otherwise it is the integer variant of that value and of
/// the least width that holds it.
pub proof fn lemma_integer_outcome(v: int)
    ensures
        integer_outcome(v) is Float <==> !fits(v, 64),
        fits(v, 64) ==> {
            let n = integer_outcome(v)->Settled_0;
            &&& n.integer() == Some(v)
            &&& fits(v, n.width())
            &&& forall|w: nat| fits(v, w) ==> n.width() <= w
        },
{
}

/// An exact quotient times the divisor is the dividend, and every integer
/// that does so is the exact quotient.
pub proof fn lemma_exact_quotient(a: int, b: int, q: int)
    requires
        b != 0,
    ensures
        exact_quotient(a, b) == Some(q) <==> q * b == a,
{
    let ma = magnitude(a);
    let mb = magnitude(b);
    vstd::arithmetic::div_mod::lemma_fundamental_div_mod(ma, mb);
    if q * b == a {
        let mq = magnitude(q);
        assert(mq * mb == ma) by (nonlinear_arith)
            requires
                q * b == a,
                mq == magnitude(q),
                mb == magnitude(b),
                ma == magnitude(a),
        ;
        vstd::arithmetic::div_mod::lemma_div_multiples_vanish(mq, mb);
        vstd::arithmetic::div_mod::lemma_mod_multiples_basic(mq, mb);
        assert(mb * mq == mq * mb) by (nonlinear_arith);
        assert((q < 0) == ((a < 0) != (b < 0)) || q == 0) by (nonlinear_arith)
            requires
                q * b == a,
                b != 0,
        ;
    }
    if exact_quotient(a, b) == Some(q) {
        let m = ma / mb;
        assert(ma == mb * m);
        assert(q * b == a) by (nonlinear_arith)
            requires
                ma == mb * m,
                ma == magnitude(a),
                mb == magnitude(b),
                q == if (a < 0) != (b < 0) { -m } else { m },
                m >= 0,
                b != 0,
        ;
    }
}

/// The remainder is smaller in magnitude than the divisor, never has the
/// sign opposite to the dividend's, and leaves a multiple of the divisor when
/// taken from the dividend.
pub proof fn lemma_remainder(a: int, b: int)
    requires
        b != 0,
    ensures
        magnitude(remainder(a, b)) < magnitude(b),
        a >= 0 ==> remainder(a, b) >= 0,
        a <= 0 ==> remainder(a, b) <= 0,
        exact_quotient(a - remainder(a, b), b) is Some,
{
    let ma = magnitude(a);
    let mb = magnitude(b);
    let r = ma % mb;
    vstd::arithmetic::div_mod::lemma_fundamental_div_mod(ma, mb);
    vstd::arithmetic::div_mod::lemma_mod_multiples_basic(ma / mb, mb);
    assert(magnitude(a - remainder(a, b)) == ma - r);
    assert(ma - r == (ma / mb) * mb) by (nonlinear_arith)
        requires
            ma == mb * (ma / mb) + r,
    ;
}

} // verus!
