//! Powers of ten, decimal digit counts, and the algebra behind one
//! Karatsuba step: everything here is ordinary integer arithmetic,
//! independent of any concrete big-integer representation.

use vstd::prelude::*;
use vstd::arithmetic::div_mod::{lemma_fundamental_div_mod, lemma_mod_division_less_than_divisor};
use vstd::arithmetic::mul::lemma_mul_is_commutative;
use vstd::arithmetic::power::{lemma_pow0, lemma_pow1, lemma_pow_adds, lemma_pow_increases,
    lemma_pow_positive, pow};

verus! {

/// 10 raised to `n`.
pub open spec fn pow10(n: nat) -> nat {
    pow(10, n) as nat
}

/// How many digits the canonical decimal representation of `v` has:
/// no leading zeros, and the single digit "0" for the value zero.
pub open spec fn digit_count(v: nat) -> nat
    decreases v,
{
    if v < 10 {
        1
    } else {
        1 + digit_count(v / 10)
    }
}

/// A power of ten is at least one.
pub proof fn lemma_pow10_positive(n: nat)
    ensures
        pow10(n) >= 1,
{
    lemma_pow_positive(10, n);
}

/// Raising ten to the next exponent multiplies the power by ten.
pub proof fn lemma_pow10_step(n: nat)
    ensures
        pow10(n + 1) == 10 * pow10(n),
{
    lemma_pow_positive(10, n);
    lemma_pow_adds(10, n, 1);
    lemma_pow1(10);
    lemma_mul_is_commutative(pow(10, n), 10);
}

/// Powers of ten do not shrink as the exponent grows.
pub proof fn lemma_pow10_increases(m: nat, n: nat)
    requires
        m <= n,
    ensures
        pow10(m) <= pow10(n),
{
    lemma_pow_positive(10, m);
    lemma_pow_positive(10, n);
    lemma_pow_increases(10, m, n);
}

/// A power of ten with a positive exponent is at least ten.
pub proof fn lemma_pow10_at_least_ten(n: nat)
    requires
        1 <= n,
    ensures
        10 <= pow10(n),
{
    lemma_pow0(10);
    lemma_pow10_step(0);
    lemma_pow10_increases(1, n);
}

/// The digit count names the decade a value lies in: every value is below
/// ten to its digit count, and every positive value reaches ten to one less.
pub proof fn lemma_digit_count_bounds(v: nat)
    ensures
        1 <= digit_count(v),
        v < pow10(digit_count(v)),
        1 <= v ==> pow10((digit_count(v) - 1) as nat) <= v,
    decreases v,
{
    lemma_pow0(10);
    lemma_pow1(10);
    if v < 10 {
        assert(pow10(1) == 10);
        assert(pow10(0) == 1);
    } else {
        let q = v / 10;
        lemma_digit_count_bounds(q);
        let c = digit_count(q);
        lemma_pow10_step(c);
        lemma_pow10_step((c - 1) as nat);
        assert(v == 10 * q + v % 10);
        assert(v % 10 < 10);
    }
}

/// The two ring identities behind one Karatsuba step: the product of two
/// sums of halves expands into the three sub-products plus the cross terms,
/// and the full product recombines from the same three sub-products once
/// the halves are scaled back by `p` and `p * p`.
pub proof fn lemma_mul_expand(xh: nat, xl: nat, yh: nat, yl: nat, p: nat) by (nonlinear_arith)
    ensures
        (xh + xl) * (yh + yl) == xh * yh + (xh * yl + xl * yh) + xl * yl,
        (xh * p + xl) * (yh * p + yl) == xh * yh * (p * p) + (xh * yl + xl * yh) * p + xl * yl,
{
}

/// Dividing by a positive `p` and keeping the remainder loses nothing:
/// quotient times `p` plus remainder restores the value, and the
/// remainder stays below `p`.
pub proof fn lemma_div_mod_parts(v: nat, p: nat)
    requires
        1 <= p,
    ensures
        (v / p) * p + v % p == v,
        v % p < p,
{
    lemma_fundamental_div_mod(v as int, p as int);
    lemma_mod_division_less_than_divisor(v as int, p as int);
    lemma_mul_is_commutative(p as int, (v / p) as int);
}

/// Core inequality for termination, over the split parts themselves:
/// with `x == qx * p + rx` and `y == qy * p + ry`, each pair handed to a
/// recursive Karatsuba call sums to strictly less than `x + y`, provided
/// one quotient is at least ten (the longer operand guarantees that).
proof fn lemma_decrease_core(x: nat, y: nat, qx: nat, rx: nat, qy: nat, ry: nat, p: nat) by (nonlinear_arith)
    requires
        x == qx * p + rx,
        y == qy * p + ry,
        2 <= p,
        rx < p,
        ry < p,
        1 <= x,
        1 <= y,
        10 <= qx || 10 <= qy,
    ensures
        qx + qy < x + y,
        rx + ry < x + y,
        (qx + rx) + (qy + ry) < x + y,
        qx * ry + rx * qy + p < x + y,
{
}

/// Termination of the recursive case: the high halves, the low halves,
/// the sums of halves, and the middle term paired with the power of ten
/// each sum to strictly less than the current operands do.
pub proof fn lemma_recursion_decreases(x: nat, y: nat, p: nat)
    requires
        1 <= x,
        1 <= y,
        2 <= p,
        10 * p <= x || 10 * p <= y,
    ensures
        x / p + y / p < x + y,
        x % p + y % p < x + y,
        (x / p + x % p) + (y / p + y % p) < x + y,
        (x / p) * (y % p) + (x % p) * (y / p) + p < x + y,
{
    lemma_div_mod_parts(x, p);
    lemma_div_mod_parts(y, p);
    if 10 * p <= x {
        lemma_quotient_at_least(x / p, x % p, p, x, 10);
    } else {
        lemma_quotient_at_least(y / p, y % p, p, y, 10);
    }
    lemma_decrease_core(x, y, x / p, x % p, y / p, y % p, p);
}

/// A value of at least `k * p` has a quotient by `p` of at least `k`.
proof fn lemma_quotient_at_least(q: nat, r: nat, p: nat, v: nat, k: nat) by (nonlinear_arith)
    requires
        v == q * p + r,
        r < p,
        k * p <= v,
    ensures
        k <= q,
{
}

} // verus!
