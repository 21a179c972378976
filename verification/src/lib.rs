//! Exact multiplication of arbitrary-precision non-negative integers by
//! Karatsuba's divide-and-conquer method, with the algorithm verified
//! against the mathematical product of the operands.

pub mod arith;
pub mod bignum;
pub mod multiplier;

pub use arith::pow10;
pub use arith::digit_count;
pub use bignum::big_value;
pub use multiplier::{calculate_split, multiply, pow_of_ten, Split, BASE_CASE_DIGITS};
