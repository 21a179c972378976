//! Trusted boundary around `num_bigint::BigUint`, the arbitrary-precision
//! unsigned integer that carries every value through the algorithm.
//!
//! `big_value` names the non-negative integer a `BigUint` stands for; each
//! wrapper below states, over that name, exactly what the wrapped operation
//! computes, as `num_bigint`'s documentation and source give it.

use vstd::prelude::*;
use vstd::arithmetic::power::pow;
use crate::arith::digit_count;
use num_bigint::BigUint;

verus! {

#[verifier::external_type_specification]
#[verifier::external_body]
pub struct ExBigUint(BigUint);

/// The non-negative integer that a `BigUint` stands for.
pub uninterp spec fn big_value(b: BigUint) -> nat;

/// Relies on `<BigUint as From<u64>>::from`: the result stands for the
/// argument's value.
#[verifier::external_body]
pub(crate) fn big_from_u64(v: u64) -> (r: BigUint)
    ensures
        big_value(r) == v as nat,
{
    BigUint::from(v)
}

/// Relies on `num_traits::Zero::is_zero` for `BigUint`: true exactly of
/// the value zero.
#[verifier::external_body]
pub(crate) fn big_is_zero(b: &BigUint) -> (r: bool)
    ensures
        r <==> big_value(*b) == 0,
{
    num_traits::Zero::is_zero(b)
}

/// Relies on `Add` for `&BigUint`: the exact sum.
#[verifier::external_body]
pub(crate) fn big_add(a: &BigUint, b: &BigUint) -> (r: BigUint)
    ensures
        big_value(r) == big_value(*a) + big_value(*b),
{
    a + b
}

/// Relies on `Sub` for `&BigUint`: the exact difference. It panics when
/// the subtrahend is the larger value, so that case is excluded here.
#[verifier::external_body]
pub(crate) fn big_sub(a: &BigUint, b: &BigUint) -> (r: BigUint)
    requires
        big_value(*b) <= big_value(*a),
    ensures
        big_value(r) == big_value(*a) - big_value(*b),
{
    a - b
}

/// Relies on `Mul` for `&BigUint`: the exact product. This is the direct
/// multiplication primitive of the base case.
#[verifier::external_body]
pub(crate) fn big_mul(a: &BigUint, b: &BigUint) -> (r: BigUint)
    ensures
        big_value(r) == big_value(*a) * big_value(*b),
{
    a * b
}

/// Relies on `Div` for `&BigUint`: floor division. It panics on a zero
/// divisor, so that case is excluded here.
#[verifier::external_body]
pub(crate) fn big_div(a: &BigUint, d: &BigUint) -> (r: BigUint)
    requires
        1 <= big_value(*d),
    ensures
        big_value(r) == big_value(*a) / big_value(*d),
{
    a / d
}

/// Relies on `Rem` for `&BigUint`: the remainder of floor division. It
/// panics on a zero divisor, so that case is excluded here.
#[verifier::external_body]
pub(crate) fn big_rem(a: &BigUint, d: &BigUint) -> (r: BigUint)
    requires
        1 <= big_value(*d),
    ensures
        big_value(r) == big_value(*a) % big_value(*d),
{
    a % d
}

/// Relies on `num_traits::Pow` for `&BigUint` with a `usize` exponent:
/// the exact power.
#[verifier::external_body]
pub(crate) fn big_pow(base: &BigUint, exponent: usize) -> (r: BigUint)
    ensures
        big_value(r) == pow(big_value(*base) as int, exponent as nat),
{
    num_traits::Pow::pow(base, exponent)
}

/// Relies on `BigUint::to_str_radix` with radix 10: the canonical decimal
/// representation, "0" for zero and no leading zeros otherwise; the wrapper
/// returns how many digits it has.
#[verifier::external_body]
pub(crate) fn big_digit_count(b: &BigUint) -> (r: usize)
    ensures
        r as nat == digit_count(big_value(*b)),
{
    b.to_str_radix(10).len()
}

} // verus!
