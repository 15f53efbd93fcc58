//! The number type, its constructors and its queries.

use vstd::prelude::*;
use crate::narrow::{narrow_single, narrowed_single};
use crate::ieee::{
    infinite32, infinite64, is_finite64, is_infinite32, is_infinite64, is_nan32,
    is_nan64, is_negative32, is_negative64, is_zero32, is_zero64, nan32, nan64, negative32,
    negative64, zero32, zero64,
};

verus! {

/// One scalar value. The two floating variants hold the IEEE-754 bit pattern
/// of their value: binary64 in `Float64`, binary32 in `Float32`.
#[derive(Clone, Copy, Debug)]
pub enum Number {
    PositiveInfinity,
    NegativeInfinity,
    NaN,
    Integer64(i64),
    Integer32(i32),
    Integer16(i16),
    Integer8(i8),
    Float64(u64),
    Float32(u32),
}

/// Whether a signed integer of `width` bits can hold `v`.
pub open spec fn fits(v: int, width: nat) -> bool {
    if width == 8 {
        -0x80 <= v <= 0x7f
    } else if width == 16 {
        -0x8000 <= v <= 0x7fff
    } else if width == 32 {
        -0x8000_0000 <= v <= 0x7fff_ffff
    } else if width == 64 {
        -0x8000_0000_0000_0000 <= v <= 0x7fff_ffff_ffff_ffff
    } else {
        false
    }
}

impl Number {
    /// The integer variant of least width that holds `v`.
    pub open spec fn narrowest(v: i64) -> Number {
        if fits(v as int, 8) {
            Number::Integer8(v as i8)
        } else if fits(v as int, 16) {
            Number::Integer16(v as i16)
        } else if fits(v as int, 32) {
            Number::Integer32(v as i32)
        } else {
            Number::Integer64(v)
        }
    }

    /// The floating variant chosen for a binary64 pattern: binary32 where the
    /// value is finite and within binary64 machine epsilon of its rounding to
    /// binary32, binary64 otherwise.
    pub open spec fn narrowed(value: u64) -> Number {
        match narrowed_single(value) {
            Some(single) => Number::Float32(single),
            None => Number::Float64(value),
        }
    }

    /// The variant for any binary64 pattern: a special variant for a NaN or
    /// an infinity, the narrowed floating variant for the rest.
    pub open spec fn classified(value: u64) -> Number {
        if is_nan64(value) {
            Number::NaN
        } else if is_infinite64(value) {
            if is_negative64(value) {
                Number::NegativeInfinity
            } else {
                Number::PositiveInfinity
            }
        } else {
            Number::narrowed(value)
        }
    }

    /// The bit width of an integer variant, 0 for the others.
    pub open spec fn width(self) -> nat {
        match self {
            Number::Integer8(_) => 8,
            Number::Integer16(_) => 16,
            Number::Integer32(_) => 32,
            Number::Integer64(_) => 64,
            _ => 0,
        }
    }

    /// The value of an integer variant.
    pub open spec fn integer(self) -> Option<int> {
        match self {
            Number::Integer8(v) => Some(v as int),
            Number::Integer16(v) => Some(v as int),
            Number::Integer32(v) => Some(v as int),
            Number::Integer64(v) => Some(v as int),
            _ => None,
        }
    }

    /// Whether the value is not a number: the `NaN` variant, or a floating
    /// variant whose pattern is a NaN.
    pub open spec fn nan(self) -> bool {
        match self {
            Number::NaN => true,
            Number::Float64(b) => is_nan64(b),
            Number::Float32(b) => is_nan32(b),
            _ => false,
        }
    }

    /// Whether the value is an infinity: one of the two infinity variants, or
    /// a floating variant whose pattern is an infinity.
    pub open spec fn infinite(self) -> bool {
        match self {
            Number::PositiveInfinity | Number::NegativeInfinity => true,
            Number::Float64(b) => is_infinite64(b),
            Number::Float32(b) => is_infinite32(b),
            _ => false,
        }
    }

    /// Whether the value is zero of either sign.
    pub open spec fn zero(self) -> bool {
        match self {
            Number::Integer8(v) => v == 0,
            Number::Integer16(v) => v == 0,
            Number::Integer32(v) => v == 0,
            Number::Integer64(v) => v == 0,
            Number::Float64(b) => is_zero64(b),
            Number::Float32(b) => is_zero32(b),
            _ => false,
        }
    }

    /// Whether the value carries a negative sign.
    pub open spec fn negative(self) -> bool {
        match self {
            Number::NegativeInfinity => true,
            Number::Integer8(v) => v < 0,
            Number::Integer16(v) => v < 0,
            Number::Integer32(v) => v < 0,
            Number::Integer64(v) => v < 0,
            Number::Float64(b) => is_negative64(b),
            Number::Float32(b) => is_negative32(b),
            _ => false,
        }
    }

    /// The variant's name.
    pub open spec fn tag(self) -> Seq<char> {
        match self {
            Number::PositiveInfinity => "PositiveInfinity"@,
            Number::NegativeInfinity => "NegativeInfinity"@,
            Number::NaN => "NaN"@,
            Number::Integer8(_) => "Integer8"@,
            Number::Integer16(_) => "Integer16"@,
            Number::Integer32(_) => "Integer32"@,
            Number::Integer64(_) => "Integer64"@,
            Number::Float32(_) => "Float32"@,
            Number::Float64(_) => "Float64"@,
        }
    }

    /// Wraps an integer in the narrowest variant that holds it.
    pub fn from_int(value: i64) -> (r: Number)
        ensures
            r == Number::narrowest(value),
            r.integer() == Some(value as int),
            fits(value as int, r.width()),
            forall|w: nat| fits(value as int, w) ==> r.width() <= w,
    {
        if value >= -0x80 && value <= 0x7f {
            Number::Integer8(value as i8)
        } else if value >= -0x8000 && value <= 0x7fff {
            Number::Integer16(value as i16)
        } else if value >= -0x8000_0000 && value <= 0x7fff_ffff {
            Number::Integer32(value as i32)
        } else {
            Number::Integer64(value)
        }
    }

    /// Wraps the binary64 pattern of a finite value in the narrower floating
    /// variant that holds it closely. A pattern that is not finite stays in
    /// `Float64`.
    pub fn from_float(value: u64) -> (r: Number)
        ensures
            r == Number::narrowed(value),
            !is_finite64(value) ==> r == Number::Float64(value),
    {
        match narrow_single(value) {
            Some(single) => Number::Float32(single),
            None => Number::Float64(value),
        }
    }

    /// Wraps any binary64 pattern: a NaN and the infinities in their special
    /// variants, every other value as `from_float` does.
    pub fn from_f64(value: u64) -> (r: Number)
        ensures
            r == Number::classified(value),
            is_nan64(value) <==> r is NaN,
            is_infinite64(value) <==> (r is PositiveInfinity || r is NegativeInfinity),
    {
        if nan64(value) {
            Number::NaN
        } else if infinite64(value) {
            if negative64(value) {
                Number::NegativeInfinity
            } else {
                Number::PositiveInfinity
            }
        } else {
            Number::from_float(value)
        }
    }

    /// The name of the active variant.
    pub fn variant_name(&self) -> (r: &'static str)
        ensures
            r@ == self.tag(),
    {
        match self {
            Number::PositiveInfinity => "PositiveInfinity",
            Number::NegativeInfinity => "NegativeInfinity",
            Number::NaN => "NaN",
            Number::Integer8(_) => "Integer8",
            Number::Integer16(_) => "Integer16",
            Number::Integer32(_) => "Integer32",
            Number::Integer64(_) => "Integer64",
            Number::Float32(_) => "Float32",
            Number::Float64(_) => "Float64",
        }
    }

    /// Whether the value is not a number.
    pub fn is_nan(&self) -> (r: bool)
        ensures
            r == self.nan(),
    {
        match self {
            Number::NaN => true,
            Number::Float64(b) => nan64(*b),
            Number::Float32(b) => nan32(*b),
            _ => false,
        }
    }

    /// Whether the value is an infinity.
    pub fn is_infinite(&self) -> (r: bool)
        ensures
            r == self.infinite(),
    {
        match self {
            Number::PositiveInfinity | Number::NegativeInfinity => true,
            Number::Float64(b) => infinite64(*b),
            Number::Float32(b) => infinite32(*b),
            _ => false,
        }
    }

    /// Whether the value is neither a NaN nor an infinity.
    pub fn is_finite(&self) -> (r: bool)
        ensures
            r == (!self.nan() && !self.infinite()),
    {
        !self.is_nan() && !self.is_infinite()
    }

    /// Whether the value is zero of either sign.
    pub fn is_zero(&self) -> (r: bool)
        ensures
            r == self.zero(),
    {
        match self {
            Number::Integer8(v) => *v == 0,
            Number::Integer16(v) => *v == 0,
            Number::Integer32(v) => *v == 0,
            Number::Integer64(v) => *v == 0,
            Number::Float64(b) => zero64(*b),
            Number::Float32(b) => zero32(*b),
            _ => false,
        }
    }

    /// Whether the value carries a negative sign.
    pub fn is_negative(&self) -> (r: bool)
        ensures
            r == self.negative(),
    {
        match self {
            Number::NegativeInfinity => true,
            Number::Integer8(v) => *v < 0,
            Number::Integer16(v) => *v < 0,
            Number::Integer32(v) => *v < 0,
            Number::Integer64(v) => *v < 0,
            Number::Float64(b) => negative64(*b),
            Number::Float32(b) => negative32(*b),
            _ => false,
        }
    }

    /// The value of an integer variant, widened to 64 bits.
    pub fn as_integer(&self) -> (r: Option<i64>)
        ensures
            match r {
                Some(v) => self.integer() == Some(v as int),
                None => self.integer() is None,
            },
    {
        match self {
            Number::Integer8(v) => Some(*v as i64),
            Number::Integer16(v) => Some(*v as i64),
            Number::Integer32(v) => Some(*v as i64),
            Number::Integer64(v) => Some(*v),
            _ => None,
        }
    }
}

} // verus!
