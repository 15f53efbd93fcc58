//! Reading a number from text.

use vstd::prelude::*;
use crate::number::{fits, Number};

verus! {

/// Why a text could not be read: it names no special value and is neither an
/// integer nor a floating literal.
#[derive(Debug)]
pub struct ParseError {
    /// The text that was rejected, as it was given.
    pub text: String,
}

/// The message of a rejected text: the text between quotes, in a sentence.
pub open spec fn rejection(text: Seq<char>) -> Seq<char> {
    "\u{65e0}\u{6cd5}\u{89e3}\u{6790} '"@ + text + "' \u{4e3a}\u{6570}\u{5b57}"@
}

impl ParseError {
    /// The message for a reader, which holds the rejected text.
    pub fn message(&self) -> (r: String)
        ensures
            r@ == rejection(self.text@),
    {
        String::from_str("\u{65e0}\u{6cd5}\u{89e3}\u{6790} '").concat(self.text.as_str()).concat(
            "' \u{4e3a}\u{6570}\u{5b57}",
        )
    }
}

/// Unicode's White_Space code points.
pub open spec fn is_space(c: char) -> bool {
    let u = c as u32;
    ||| 0x09 <= u <= 0x0d
    ||| u == 0x20
    ||| u == 0x85
    ||| u == 0xa0
    ||| u == 0x1680
    ||| 0x2000 <= u <= 0x200a
    ||| u == 0x2028
    ||| u == 0x2029
    ||| u == 0x202f
    ||| u == 0x205f
    ||| u == 0x3000
}

/// The text without the white space at its start.
pub open spec fn trimmed_start(s: Seq<char>) -> Seq<char>
    decreases s.len(),
{
    if s.len() > 0 && is_space(s[0]) {
        trimmed_start(s.subrange(1, s.len() as int))
    } else {
        s
    }
}

/// The text without the white space at its end.
pub open spec fn trimmed_end(s: Seq<char>) -> Seq<char>
    decreases s.len(),
{
    if s.len() > 0 && is_space(s.last()) {
        trimmed_end(s.drop_last())
    } else {
        s
    }
}

/// The text without the white space at its two ends.
pub open spec fn trimmed(s: Seq<char>) -> Seq<char> {
    trimmed_end(trimmed_start(s))
}

/// The Unicode lowercase form of a text.
pub uninterp spec fn lowercased(s: Seq<char>) -> Seq<char>;

/// Whether a character is one of the ten ASCII digits.
pub open spec fn is_digit(c: char) -> bool {
    0x30 <= c as u32 <= 0x39
}

/// The number that a run of decimal digits writes.
pub open spec fn digits_value(s: Seq<char>) -> int
    decreases s.len(),
{
    if s.len() == 0 {
        0
    } else {
        digits_value(s.drop_last()) * 10 + (s.last() as u32 - 0x30)
    }
}

/// The 64-bit integer that a text writes: an optional sign, then one decimal
/// digit or more and nothing else, and a value that 64 bits hold.
pub open spec fn integer_reading(s: Seq<char>) -> Option<i64> {
    let signed = s.len() > 0 && (s[0] == '-' || s[0] == '+');
    let digits = if signed { s.subrange(1, s.len() as int) } else { s };
    let value = if signed && s[0] == '-' { -digits_value(digits) } else { digits_value(digits) };
    if digits.len() > 0 && (forall|i: int| 0 <= i < digits.len() ==> is_digit(#[trigger] digits[i]))
        && fits(value, 64) {
        Some(value as i64)
    } else {
        None
    }
}

/// The special value that a trimmed, lowercased token names.
pub open spec fn special_value(token: Seq<char>) -> Option<Number> {
    if token == "inf"@ || token == "infinity"@ || token == "+inf"@ || token == "+infinity"@ {
        Some(Number::PositiveInfinity)
    } else if token == "-inf"@ || token == "-infinity"@ {
        Some(Number::NegativeInfinity)
    } else if token == "nan"@ {
        Some(Number::NaN)
    } else {
        None
    }
}

/// What a text is read as, given its token, its reading as an integer and
/// the binary64 pattern of its reading as a floating literal: the special
/// value first, then the integer in its narrowest variant, then the floating
/// value; nothing where all three fail.
pub open spec fn spec_resolve(
    token: Seq<char>,
    integer: Option<i64>,
    float: Option<u64>,
) -> Option<Number> {
    match special_value(token) {
        Some(n) => Some(n),
        None => match integer {
            Some(v) => Some(Number::narrowest(v)),
            None => match float {
                Some(bits) => Some(Number::narrowed(bits)),
                None => None,
            },
        },
    }
}

/// `str::trim`: the slice of the text between its leading and trailing
/// Unicode white space.
#[verifier::external_body]
fn trim(s: &str) -> (r: &str)
    ensures
        r@ == trimmed(s@),
{
    s.trim()
}

/// `str::to_lowercase`: the text's Unicode lowercase form, a function of the
/// text alone.
#[verifier::external_body]
fn lowercase(s: &str) -> (r: String)
    ensures
        r@ == lowercased(s@),
{
    s.to_lowercase()
}

/// `str::eq`: whether two texts hold the same characters.
#[verifier::external_body]
fn same_text(a: &str, b: &str) -> (r: bool)
    ensures
        r == (a@ == b@),
{
    a == b
}

/// `str::parse` at `i64`: an optional `+` or `-`, then decimal digits only, at
/// least one; fails on anything else and on a value outside 64 bits.
#[verifier::external_body]
fn read_integer(s: &str) -> (r: Option<i64>)
    ensures
        r == integer_reading(s@),
{
    match s.parse::<i64>() {
        Ok(v) => Some(v),
        Err(_) => None,
    }
}

/// The special value that a trimmed, lowercased token names, if any.
pub fn special(token: &str) -> (r: Option<Number>)
    ensures
        r == special_value(token@),
{
    if same_text(token, "inf") || same_text(token, "infinity") || same_text(token, "+inf")
        || same_text(token, "+infinity") {
        Some(Number::PositiveInfinity)
    } else if same_text(token, "-inf") || same_text(token, "-infinity") {
        Some(Number::NegativeInfinity)
    } else if same_text(token, "nan") {
        Some(Number::NaN)
    } else {
        None
    }
}

/// Settles what `text` is read as, given the lowercase form of the trimmed
/// text, and the readings of the trimmed text as an integer and as a floating
/// literal.
pub fn resolve(
    token: &str,
    integer: Option<i64>,
    float: Option<u64>,
    text: &str,
) -> (r: Result<Number, ParseError>)
    ensures
        match spec_resolve(token@, integer, float) {
            Some(n) => r matches Ok(v) && v == n,
            None => r matches Err(e) && e.text@ == text@,
        },
{
    if let Some(n) = special(token) {
        return Ok(n);
    }
    if let Some(v) = integer {
        return Ok(Number::from_int(v));
    }
    if let Some(bits) = float {
        return Ok(Number::from_float(bits));
    }
    Err(ParseError { text: text.to_owned() })
}

impl Number {
    /// Reads a number from `s`, without regard to the white space around it.
    /// The names of the special values are recognised in any case; any other
    /// text is read as a 64-bit integer, and failing that as the floating
    /// literal whose binary64 pattern the caller supplies in `float`, read
    /// from the trimmed text. The error holds `s` as it was given.
    pub fn parse(s: &str, float: Option<u64>) -> (r: Result<Number, ParseError>)
        ensures
            match spec_resolve(lowercased(trimmed(s@)), integer_reading(trimmed(s@)), float) {
                Some(n) => r matches Ok(v) && v == n,
                None => r matches Err(e) && e.text@ == s@,
            },
    {
        let inner = trim(s);
        let token = lowercase(inner);
        let integer = read_integer(inner);
        resolve(token.as_str(), integer, float, s)
    }
}

} // verus!
