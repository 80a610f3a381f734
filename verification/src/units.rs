//! Exact integer division with a chosen rounding, for fixed-point lengths.

use vstd::prelude::*;

verus! {

/// `a / d` rounded up to the next integer.
pub open spec fn ceil_quotient(a: int, d: int) -> int
    recommends
        d > 0,
{
    if a % d == 0 {
        a / d
    } else {
        a / d + 1
    }
}

/// `a / d` rounded to the nearest integer, halves away from zero.
pub open spec fn round_quotient(a: int, d: int) -> int
    recommends
        d > 0,
        d % 2 == 0,
{
    if a >= 0 {
        (a + d / 2) / d
    } else {
        -((-a + d / 2) / d)
    }
}

/// Computes `a / d` rounded up.
pub(crate) fn div_ceil(a: i128, d: i128) -> (q: i128)
    requires
        d > 0,
        a > i128::MIN,
    ensures
        q == ceil_quotient(a as int, d as int),
{
    if a >= 0 {
        let q: i128 = a / d;
        let r: i128 = a % d;
        if r > 0 {
            proof {
                vstd::arithmetic::div_mod::lemma_div_is_ordered_by_denominator(a as int, 2, d as int);
            }
            q + 1
        } else {
            q
        }
    } else {
        let n: i128 = -a;
        let q: i128 = n / d;
        proof {
            lemma_negated_quotient(n as int, d as int);
        }
        -q
    }
}

/// Computes `a / d` rounded to the nearest integer, halves away from zero.
pub(crate) fn div_round(a: i128, d: i128) -> (q: i128)
    requires
        d > 0,
        d % 2 == 0,
        i128::MIN + d < a < i128::MAX - d,
    ensures
        q == round_quotient(a as int, d as int),
{
    if a >= 0 {
        (a + d / 2) / d
    } else {
        -((-a + d / 2) / d)
    }
}

/// The ceiling of `-n / d` is the negated floor of `n / d`.
proof fn lemma_negated_quotient(n: int, d: int)
    requires
        n >= 0,
        d > 0,
    ensures
        ceil_quotient(-n, d) == -(n / d),
{
    let q = n / d;
    let r = n % d;
    assert(n == d * q + r) by {
        vstd::arithmetic::div_mod::lemma_fundamental_div_mod(n, d);
    }
    if r == 0 {
        assert(-n == d * (-q) + 0) by (nonlinear_arith)
            requires
                n == d * q + r,
                r == 0,
        ;
        vstd::arithmetic::div_mod::lemma_fundamental_div_mod_converse(-n, d, -q, 0);
    } else {
        assert(-n == d * (-q - 1) + (d - r)) by (nonlinear_arith)
            requires
                n == d * q + r,
        ;
        vstd::arithmetic::div_mod::lemma_fundamental_div_mod_converse(-n, d, -q - 1, d - r);
    }
}

} // verus!
