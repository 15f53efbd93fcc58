//! Equality and order: a NaN stands apart from everything, and all other
//! values compare as their binary64 widenings do, whatever variant holds them.

use vstd::prelude::*;
use vstd::std_specs::cmp::{PartialEqSpecImpl, PartialOrdSpecImpl};
use std::cmp::Ordering;
use crate::ieee::{compare64, spec_compare64, spec_equal64, Order};
use crate::arith::both_integers;
use crate::number::Number;
use crate::widen::{
    lemma_integer_widens_to_finite, lemma_small_integers_stay_apart, lemma_widening_keeps_order,
};

verus! {

/// The order of two numbers: none where either is a NaN, otherwise the order
/// of their widenings.
pub open spec fn spec_compare(a: Number, b: Number) -> Option<Order> {
    if a.nan() || b.nan() {
        None
    } else {
        spec_compare64(a.widened(), b.widened())
    }
}

/// Whether two numbers are equal.
pub open spec fn spec_equals(a: Number, b: Number) -> bool {
    spec_compare(a, b) == Some(Order::Equal)
}

impl Number {
    /// Compares this number with `other`.
    pub fn compare(&self, other: &Number) -> (r: Option<Order>)
        ensures
            r == spec_compare(*self, *other),
            self.nan() || other.nan() ==> r is None,
    {
        if self.is_nan() || other.is_nan() {
            return None;
        }
        compare64(self.to_f64(), other.to_f64())
    }

    /// Whether this number equals `other`.
    pub fn equals(&self, other: &Number) -> (r: bool)
        ensures
            r == spec_equals(*self, *other),
            self.nan() || other.nan() ==> !r,
    {
        match self.compare(other) {
            Some(Order::Equal) => true,
            _ => false,
        }
    }

    /// Whether this number is below `other`.
    pub fn less_than(&self, other: &Number) -> (r: bool)
        ensures
            r == (spec_compare(*self, *other) == Some(Order::Less)),
            self.nan() || other.nan() ==> !r,
    {
        match self.compare(other) {
            Some(Order::Less) => true,
            _ => false,
        }
    }

    /// Whether this number is above `other`.
    pub fn greater_than(&self, other: &Number) -> (r: bool)
        ensures
            r == (spec_compare(*self, *other) == Some(Order::Greater)),
            self.nan() || other.nan() ==> !r,
    {
        match self.compare(other) {
            Some(Order::Greater) => true,
            _ => false,
        }
    }
}

/// `==` is `equals`: no NaN equals anything, itself included.
impl PartialEq for Number {
    fn eq(&self, other: &Number) -> (r: bool) {
        self.equals(other)
    }
}

impl PartialEqSpecImpl for Number {
    open spec fn obeys_eq_spec() -> bool {
        true
    }

    open spec fn eq_spec(&self, other: &Number) -> bool {
        spec_equals(*self, *other)
    }
}

/// `<`, `<=`, `>` and `>=` go by `compare`: all four are false where either
/// operand is a NaN.
impl PartialOrd for Number {
    fn partial_cmp(&self, other: &Number) -> (r: Option<Ordering>) {
        match self.compare(other) {
            Some(Order::Less) => Some(Ordering::Less),
            Some(Order::Equal) => Some(Ordering::Equal),
            Some(Order::Greater) => Some(Ordering::Greater),
            None => None,
        }
    }
}

impl PartialOrdSpecImpl for Number {
    open spec fn obeys_partial_cmp_spec() -> bool {
        true
    }

    open spec fn partial_cmp_spec(&self, other: &Number) -> Option<Ordering> {
        match spec_compare(*self, *other) {
            Some(Order::Less) => Some(Ordering::Less),
            Some(Order::Equal) => Some(Ordering::Equal),
            Some(Order::Greater) => Some(Ordering::Greater),
            None => None,
        }
    }
}

/// A NaN is neither equal to any number nor ordered with it, another NaN and
/// itself included.
pub proof fn lemma_nan_stands_apart(a: Number, b: Number)
    requires
        a.nan() || b.nan(),
    ensures
        spec_compare(a, b) is None,
        spec_compare(b, a) is None,
        !spec_equals(a, b),
        !spec_equals(b, a),
{
}

/// Two numbers that are not NaNs are equal exactly when their widenings are,
/// and ordered as their widenings are, whichever variants hold them.
pub proof fn lemma_equality_ignores_variant(a: Number, b: Number)
    requires
        !a.nan(),
        !b.nan(),
    ensures
        spec_equals(a, b) == spec_equal64(a.widened(), b.widened()),
        spec_compare(a, b) == spec_compare64(a.widened(), b.widened()),
{
}

/// Swapping the operands of a comparison mirrors its result.
pub proof fn lemma_compare_mirrors(a: Number, b: Number)
    ensures
        spec_equals(a, b) == spec_equals(b, a),
        spec_compare(a, b) == Some(Order::Less) <==> spec_compare(b, a) == Some(Order::Greater),
{
}

/// Integer variants of whatever widths compare in the direction of their
/// integers: the smaller is below the other or equal to it, never above;
/// equal integers are equal; and below 2^53 in magnitude, where widening is
/// exact, the smaller is below the other.
pub proof fn lemma_integers_keep_their_order(a: Number, b: Number)
    requires
        both_integers(a, b),
        a.integer().unwrap() <= b.integer().unwrap(),
    ensures
        spec_compare(a, b) == Some(Order::Less) || spec_compare(a, b) == Some(Order::Equal),
        a.integer() == b.integer() ==> spec_equals(a, b),
        -0x20_0000_0000_0000 < a.integer().unwrap() < b.integer().unwrap() < 0x20_0000_0000_0000
            ==> spec_compare(a, b) == Some(Order::Less),
{
    let x = a.integer().unwrap();
    let y = b.integer().unwrap();
    lemma_integer_widens_to_finite(x);
    lemma_integer_widens_to_finite(y);
    lemma_widening_keeps_order(x, y);
    if -0x20_0000_0000_0000 < x < y < 0x20_0000_0000_0000 {
        lemma_small_integers_stay_apart(x, y);
    }
}

} // verus!
