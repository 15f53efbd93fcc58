//! Conversions from the native integer types.

use vstd::prelude::*;
use vstd::std_specs::convert::FromSpecImpl;
use crate::arith::{integer_outcome, Outcome};
use crate::number::Number;

verus! {

/// An 8-bit integer is already of the least width and is wrapped as it is.
impl From<i8> for Number {
    fn from(value: i8) -> (r: Number) {
        Number::Integer8(value)
    }
}

impl FromSpecImpl<i8> for Number {
    open spec fn obeys_from_spec() -> bool {
        true
    }

    open spec fn from_spec(value: i8) -> Number {
        Number::Integer8(value)
    }
}

impl From<i16> for Number {
    fn from(value: i16) -> (r: Number) {
        Number::from_int(value as i64)
    }
}

impl FromSpecImpl<i16> for Number {
    open spec fn obeys_from_spec() -> bool {
        true
    }

    open spec fn from_spec(value: i16) -> Number {
        Number::narrowest(value as i64)
    }
}

impl From<i32> for Number {
    fn from(value: i32) -> (r: Number) {
        Number::from_int(value as i64)
    }
}

impl FromSpecImpl<i32> for Number {
    open spec fn obeys_from_spec() -> bool {
        true
    }

    open spec fn from_spec(value: i32) -> Number {
        Number::narrowest(value as i64)
    }
}

impl From<i64> for Number {
    fn from(value: i64) -> (r: Number) {
        Number::from_int(value)
    }
}

impl FromSpecImpl<i64> for Number {
    open spec fn obeys_from_spec() -> bool {
        true
    }

    open spec fn from_spec(value: i64) -> Number {
        Number::narrowest(value)
    }
}

impl From<u8> for Number {
    fn from(value: u8) -> (r: Number) {
        Number::from_int(value as i64)
    }
}

impl FromSpecImpl<u8> for Number {
    open spec fn obeys_from_spec() -> bool {
        true
    }

    open spec fn from_spec(value: u8) -> Number {
        Number::narrowest(value as i64)
    }
}

impl From<u16> for Number {
    fn from(value: u16) -> (r: Number) {
        Number::from_int(value as i64)
    }
}

impl FromSpecImpl<u16> for Number {
    open spec fn obeys_from_spec() -> bool {
        true
    }

    open spec fn from_spec(value: u16) -> Number {
        Number::narrowest(value as i64)
    }
}

impl From<u32> for Number {
    fn from(value: u32) -> (r: Number) {
        Number::from_int(value as i64)
    }
}

impl FromSpecImpl<u32> for Number {
    open spec fn obeys_from_spec() -> bool {
        true
    }

    open spec fn from_spec(value: u32) -> Number {
        Number::narrowest(value as i64)
    }
}

impl Number {
    /// Wraps an unsigned 64-bit integer: in the narrowest integer variant
    /// where 64 signed bits hold it, by the floating path where they do not.
    pub fn from_u64(value: u64) -> (r: Outcome)
        ensures
            r == integer_outcome(value as int),
    {
        if value <= 0x7fff_ffff_ffff_ffff {
            Outcome::Settled(Number::from_int(value as i64))
        } else {
            Outcome::Float
        }
    }
}

/// Every conversion from a native integer keeps the value and picks the
/// narrowest variant for it, but for an 8-bit integer, which is wrapped as
/// it is and is of the least width already.
pub proof fn lemma_conversions_keep_the_value(a: i8, b: i16, c: i32, d: i64, e: u8, f: u16, g: u32)
    ensures
        <Number as vstd::std_specs::convert::FromSpec<i8>>::from_spec(a) == Number::narrowest(
            a as i64,
        ),
        <Number as vstd::std_specs::convert::FromSpec<i16>>::from_spec(b).integer() == Some(
            b as int,
        ),
        <Number as vstd::std_specs::convert::FromSpec<i32>>::from_spec(c).integer() == Some(
            c as int,
        ),
        <Number as vstd::std_specs::convert::FromSpec<i64>>::from_spec(d).integer() == Some(
            d as int,
        ),
        <Number as vstd::std_specs::convert::FromSpec<u8>>::from_spec(e).integer() == Some(
            e as int,
        ),
        <Number as vstd::std_specs::convert::FromSpec<u16>>::from_spec(f).integer() == Some(
            f as int,
        ),
        <Number as vstd::std_specs::convert::FromSpec<u32>>::from_spec(g).integer() == Some(
            g as int,
        ),
{
}

} // verus!
