//! The Karatsuba multiplier: splitting at a decimal-digit boundary, three
//! recursive sub-products, and the recombination into the exact product.

use vstd::prelude::*;
use vstd::arithmetic::power::{lemma_pow_positive, lemma_square_is_pow2};
use crate::arith::{pow10, lemma_digit_count_bounds, lemma_div_mod_parts,
    lemma_mul_expand, lemma_pow10_at_least_ten, lemma_pow10_increases, lemma_pow10_positive,
    lemma_pow10_step, lemma_recursion_decreases};
use crate::bignum::{big_add, big_digit_count, big_div, big_from_u64, big_is_zero, big_mul,
    big_pow, big_rem, big_sub, big_value};
use num_bigint::BigUint;

verus! {

/// Operands whose decimal digit counts are both at or below this threshold
/// are multiplied directly; everything longer recurses. Any threshold of at
/// least one is correct, so this is purely a performance knob.
pub const BASE_CASE_DIGITS: usize = 4;

/// A value parted at a decimal-digit boundary: `low` keeps the trailing
/// digits, `high` the rest, so that `high * 10^n + low` restores the value.
pub struct Split {
    pub low: BigUint,
    pub high: BigUint,
}

/// Ten raised to `n`, as an arbitrary-precision integer.
pub fn pow_of_ten(n: usize) -> (r: BigUint)
    ensures
        big_value(r) == pow10(n as nat),
{
    let ten = big_from_u64(10);
    proof {
        lemma_pow_positive(10, n as nat);
    }
    big_pow(&ten, n)
}

/// Part `value` at the boundary `length` decimal digits from the right:
/// `low` is the remainder and `high` the quotient by `10^length`, and
/// together they recombine to the value they came from.
pub fn calculate_split(value: &BigUint, length: usize) -> (r: Split)
    ensures
        big_value(r.low) == big_value(*value) % pow10(length as nat),
        big_value(r.high) == big_value(*value) / pow10(length as nat),
        big_value(r.high) * pow10(length as nat) + big_value(r.low) == big_value(*value),
        big_value(r.low) < pow10(length as nat),
{
    let divisor = pow_of_ten(length);
    proof {
        lemma_pow10_positive(length as nat);
        lemma_div_mod_parts(big_value(*value), pow10(length as nat));
    }
    Split {
        low: big_rem(value, &divisor),
        high: big_div(value, &divisor),
    }
}

/// The exact product of two arbitrary-precision non-negative integers,
/// computed by Karatsuba's method: zero operands short-circuit, short
/// operands multiply directly, and longer ones are split at half the
/// longer digit count into three recursive sub-products.
pub fn multiply(left: &BigUint, right: &BigUint) -> (r: BigUint)
    ensures
        big_value(r) == big_value(*left) * big_value(*right),
    decreases big_value(*left) + big_value(*right),
{
    let ghost x = big_value(*left);
    let ghost y = big_value(*right);

    if big_is_zero(left) || big_is_zero(right) {
        return big_from_u64(0);
    }

    let length_left = big_digit_count(left);
    let length_right = big_digit_count(right);

    if length_left <= BASE_CASE_DIGITS && length_right <= BASE_CASE_DIGITS {
        return big_mul(left, right);
    }

    let maximum_length = if length_left >= length_right {
        length_left
    } else {
        length_right
    };
    let n = maximum_length / 2;
    let ghost p = pow10(n as nat);

    proof {
        lemma_digit_count_bounds(x);
        lemma_digit_count_bounds(y);
        lemma_pow10_at_least_ten(n as nat);
        lemma_pow10_step(n as nat);
        lemma_pow10_increases((n + 1) as nat, (maximum_length - 1) as nat);
        lemma_recursion_decreases(x, y, p);
    }

    let split_left = calculate_split(left, n);
    let split_right = calculate_split(right, n);
    let ghost qx = x / p;
    let ghost rx = x % p;
    let ghost qy = y / p;
    let ghost ry = y % p;

    let a = multiply(&split_left.high, &split_right.high);
    let b = multiply(&split_left.low, &split_right.low);
    let sum_left = big_add(&split_left.high, &split_left.low);
    let sum_right = big_add(&split_right.high, &split_right.low);
    let c = multiply(&sum_left, &sum_right);

    proof {
        lemma_mul_expand(qx, rx, qy, ry, p);
    }

    let c_minus_a = big_sub(&c, &a);
    let middle = big_sub(&c_minus_a, &b);
    let power = pow_of_ten(n);
    let scaled_middle = multiply(&middle, &power);
    let power_squared = big_pow(&power, 2);
    let high_term = big_mul(&a, &power_squared);

    proof {
        lemma_square_is_pow2(p as int);
    }

    let combined = big_add(&high_term, &scaled_middle);
    big_add(&combined, &b)
}

/// Zero absorption: `multiply` returns exactly the product of the
/// operands' values, and a product with a zero factor is zero.
pub proof fn lemma_product_zero(x: nat, y: nat)
    requires
        x == 0 || y == 0,
    ensures
        x * y == 0,
{
}

/// Identity: a product with the factor one is the other factor unchanged.
pub proof fn lemma_product_identity(x: nat)
    ensures
        x * 1 == x,
        1 * x == x,
{
}

/// Commutativity: the product `multiply` returns does not depend on the
/// order of its operands.
pub proof fn lemma_product_commutative(x: nat, y: nat)
    ensures
        x * y == y * x,
{
    vstd::arithmetic::mul::lemma_mul_is_commutative(x as int, y as int);
}

/// Associativity: chaining `multiply` over three values gives the same
/// product whichever pair is multiplied first.
pub proof fn lemma_product_associative(x: nat, y: nat, z: nat)
    ensures
        (x * y) * z == x * (y * z),
{
    vstd::arithmetic::mul::lemma_mul_is_associative(x as int, y as int, z as int);
}

/// Split invariant: the high half scaled back by `10^n` plus the low half
/// restores the split value, and the low half stays below `10^n`.
pub proof fn lemma_split_invariant(v: nat, n: nat)
    ensures
        (v / pow10(n)) * pow10(n) + v % pow10(n) == v,
        v % pow10(n) < pow10(n),
{
    lemma_pow10_positive(n);
    lemma_div_mod_parts(v, pow10(n));
}

/// Threshold boundary: one Karatsuba step at any split position `n`
/// recombines to the exact product, so forcing an extra split where the
/// base case would already apply cannot change the result.
pub proof fn lemma_karatsuba_step(x: nat, y: nat, n: nat)
    ensures
        (x / pow10(n) + x % pow10(n)) * (y / pow10(n) + y % pow10(n))
            == (x / pow10(n)) * (y / pow10(n))
                + ((x / pow10(n)) * (y % pow10(n)) + (x % pow10(n)) * (y / pow10(n)))
                + (x % pow10(n)) * (y % pow10(n)),
        x * y == (x / pow10(n)) * (y / pow10(n)) * (pow10(n) * pow10(n))
            + ((x / pow10(n)) * (y % pow10(n)) + (x % pow10(n)) * (y / pow10(n))) * pow10(n)
            + (x % pow10(n)) * (y % pow10(n)),
{
    lemma_split_invariant(x, n);
    lemma_split_invariant(y, n);
    lemma_mul_expand(x / pow10(n), x % pow10(n), y / pow10(n), y % pow10(n), pow10(n));
}

} // verus!
