//! The text of a number.

use vstd::prelude::*;
use crate::number::Number;
use crate::text::{digits_value, integer_reading, is_digit};

verus! {

/// The character of a decimal digit.
pub open spec fn digit(d: int) -> char
    recommends
        0 <= d <= 9,
{
    ((0x30 + d) as u8) as char
}

/// The decimal digits of a natural number, without leading zeros.
pub open spec fn digits(n: nat) -> Seq<char>
    decreases n,
{
    if n < 10 {
        seq![digit(n as int)]
    } else {
        digits(n / 10).push(digit((n % 10) as int))
    }
}

/// The decimal text of an integer: a minus sign where it is negative, then
/// its digits.
pub open spec fn decimal(v: int) -> Seq<char> {
    if v < 0 {
        seq!['-'] + digits((-v) as nat)
    } else {
        digits(v as nat)
    }
}

impl Number {
    /// The text of a special value or of an integer; nothing for a floating
    /// variant, whose text is the host's decimal form of its value.
    pub open spec fn text(self) -> Option<Seq<char>> {
        match self {
            Number::PositiveInfinity => Some("\u{221e}"@),
            Number::NegativeInfinity => Some("-\u{221e}"@),
            Number::NaN => Some("NaN"@),
            Number::Integer8(v) => Some(decimal(v as int)),
            Number::Integer16(v) => Some(decimal(v as int)),
            Number::Integer32(v) => Some(decimal(v as int)),
            Number::Integer64(v) => Some(decimal(v as int)),
            Number::Float32(_) => None,
            Number::Float64(_) => None,
        }
    }

    /// The text that displays this number, where the library can write it:
    /// the signs of the special values and the decimal form of an integer.
    pub fn to_text(&self) -> (r: Option<String>)
        ensures
            match self.text() {
                Some(t) => r matches Some(s) && s@ == t,
                None => r is None,
            },
    {
        match self {
            Number::PositiveInfinity => Some("\u{221e}".to_owned()),
            Number::NegativeInfinity => Some("-\u{221e}".to_owned()),
            Number::NaN => Some("NaN".to_owned()),
            Number::Integer8(v) => Some(integer_text(*v as i64)),
            Number::Integer16(v) => Some(integer_text(*v as i64)),
            Number::Integer32(v) => Some(integer_text(*v as i64)),
            Number::Integer64(v) => Some(integer_text(*v)),
            Number::Float32(_) => None,
            Number::Float64(_) => None,
        }
    }
}

/// `i64`'s `to_string`: the decimal text of the integer, with a minus sign
/// where it is negative and without leading zeros or a plus sign.
#[verifier::external_body]
fn integer_text(v: i64) -> (r: String)
    ensures
        r@ == decimal(v as int),
{
    v.to_string()
}

/// The digits of a natural number are decimal digits, at least one, and
/// write that number.
pub proof fn lemma_digits_write_the_number(n: nat)
    ensures
        digits(n).len() >= 1,
        forall|i: int| 0 <= i < digits(n).len() ==> is_digit(#[trigger] digits(n)[i]),
        digits_value(digits(n)) == n,
    decreases n,
{
    if n < 10 {
        let s = digits(n);
        assert(s.drop_last() =~= Seq::<char>::empty());
        assert(digits_value(s.drop_last()) == 0);
        assert(s.last() == digit(n as int));
    } else {
        lemma_digits_write_the_number(n / 10);
        let s = digits(n);
        assert(s.drop_last() =~= digits(n / 10));
        assert(s.last() == digit((n % 10) as int));
        assert forall|i: int| 0 <= i < s.len() implies is_digit(#[trigger] s[i]) by {
            if i < s.len() - 1 {
                assert(s[i] == digits(n / 10)[i]);
            }
        }
    }
}

/// The text that the library writes for a 64-bit integer reads back as that
/// integer.
pub proof fn lemma_decimal_reads_back(v: i64)
    ensures
        integer_reading(decimal(v as int)) == Some(v),
{
    let s = decimal(v as int);
    if v < 0 {
        let d = digits((-v) as nat);
        lemma_digits_write_the_number((-v) as nat);
        assert(s[0] == '-');
        assert(s.subrange(1, s.len() as int) =~= d);
    } else {
        lemma_digits_write_the_number(v as nat);
        assert(is_digit(s[0]));
    }
}

} // verus!
