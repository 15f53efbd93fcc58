//! A scalar number that is one of four signed integer widths, two IEEE-754
//! binary formats or one of three special values, with the integer and
//! special-value rules of its arithmetic verified.
//!
//! Floating payloads are carried as IEEE-754 bit patterns, and the library
//! works on them with integer arithmetic alone: it classifies and compares
//! patterns, widens integers and binary32 values to binary64, and narrows
//! binary64 values to binary32. It performs no floating-point arithmetic:
//! every operator either settles its result by the special-value and integer
//! rules, or reports that the result is the hardware's binary64 operation on
//! the widened operands.

pub mod arith;
pub mod convert;
pub mod display;
pub mod ieee;
pub mod narrow;
pub mod number;
pub mod order;
pub mod text;
pub mod widen;

pub use arith::Outcome;
pub use ieee::Order;
pub use number::Number;
pub use text::ParseError;
