//! Integer arithmetic underlying gain application: division rounded to the
//! nearest integer with ties away from zero, and the facts about it that the
//! normalization proofs rest on.

use vstd::prelude::*;
use vstd::arithmetic::div_mod::{
    lemma_div_by_multiple, lemma_div_denominator, lemma_div_is_ordered,
    lemma_div_multiples_vanish_fancy, lemma_fundamental_div_mod, lemma_mod_bound,
};

verus! {

/// The absolute value of a mathematical integer.
pub open spec fn abs_int(x: int) -> int {
    if x < 0 {
        -x
    } else {
        x
    }
}

/// `p / q` rounded to the nearest integer, with a half rounded away from
/// zero. This is the rounding a sample picks up when a gain is applied.
pub open spec fn rounded_div(p: int, q: int) -> int
    recommends
        q > 0,
{
    if p >= 0 {
        (2 * p + q) / (2 * q)
    } else {
        -((2 * (-p) + q) / (2 * q))
    }
}

/// Rounding is an odd function of the numerator.
pub proof fn lemma_rounded_div_neg(p: int, q: int)
    requires
        q > 0,
    ensures
        rounded_div(-p, q) == -rounded_div(p, q),
{
    if p == 0 {
        assert((2 * 0 + q) / (2 * q) == 0) by {
            lemma_div_multiples_vanish_fancy(0, q, 2 * q);
        }
    }
}

/// Rounding a numerator that is an exact multiple of the denominator
/// returns the multiplier unchanged.
pub proof fn lemma_rounded_div_exact(s: int, q: int)
    requires
        q > 0,
    ensures
        rounded_div(s * q, q) == s,
    decreases (if s >= 0 { 0int } else { 1int }),
{
    if s >= 0 {
        assert(2 * (s * q) + q == (2 * s + 1) * q) by (nonlinear_arith);
        assert(((2 * s + 1) * q) / q == 2 * s + 1) by {
            lemma_div_by_multiple(2 * s + 1, q);
        }
        assert((((2 * s + 1) * q) / q) / 2 == ((2 * s + 1) * q) / (q * 2)) by {
            lemma_div_denominator((2 * s + 1) * q, q, 2);
        }
        assert((2 * s + 1) / 2 == s) by {
            lemma_div_multiples_vanish_fancy(s, 1, 2);
        }
        assert(q * 2 == 2 * q);
    } else {
        assert(-(s * q) == (-s) * q) by (nonlinear_arith);
        lemma_rounded_div_exact(-s, q);
        lemma_rounded_div_neg(-(s * q), q);
    }
}

/// A common positive factor of numerator and denominator cancels.
pub proof fn lemma_rounded_div_cancel(p: int, q: int, c: int)
    requires
        q > 0,
        c > 0,
    ensures
        rounded_div(p * c, q * c) == rounded_div(p, q),
    decreases (if p >= 0 { 0int } else { 1int }),
{
    if p >= 0 {
        assert(p * c >= 0) by (nonlinear_arith)
            requires
                p >= 0,
                c > 0,
        ;
        assert(q * c > 0) by (nonlinear_arith)
            requires
                q > 0,
                c > 0,
        ;
        let a = 2 * p + q;
        assert(2 * (p * c) + q * c == (2 * p + q) * c) by (nonlinear_arith);
        assert(2 * (q * c) == c * (2 * q)) by (nonlinear_arith);
        assert((a * c) / c == a) by {
            lemma_div_by_multiple(a, c);
        }
        assert(((a * c) / c) / (2 * q) == (a * c) / (c * (2 * q))) by {
            lemma_div_denominator(a * c, c, 2 * q);
        }
    } else {
        assert(p * c < 0) by (nonlinear_arith)
            requires
                p < 0,
                c > 0,
        ;
        assert(q * c > 0) by (nonlinear_arith)
            requires
                q > 0,
                c > 0,
        ;
        assert(-(p * c) == (-p) * c) by (nonlinear_arith);
        lemma_rounded_div_cancel(-p, q, c);
        lemma_rounded_div_neg(-p, q);
        lemma_rounded_div_neg(-(p * c), q * c);
    }
}

/// Rounding is monotone in a nonnegative numerator.
pub proof fn lemma_rounded_div_ordered(p1: int, p2: int, q: int)
    requires
        0 <= p1 <= p2,
        q > 0,
    ensures
        0 <= rounded_div(p1, q) <= rounded_div(p2, q),
{
    lemma_div_is_ordered(2 * p1 + q, 2 * p2 + q, 2 * q);
    lemma_div_is_ordered(0, 2 * p1 + q, 2 * q);
    assert(0int / (2 * q) == 0) by {
        vstd::arithmetic::div_mod::lemma_basic_div(0, 2 * q);
    }
}

/// A rational no greater than the integer `k` rounds to at most `k`.
pub proof fn lemma_rounded_div_le_factor(p: int, q: int, k: int)
    requires
        q > 0,
        0 <= p,
        0 <= k,
        p <= k * q,
    ensures
        rounded_div(p, q) <= k,
{
    lemma_rounded_div_ordered(p, k * q, q);
    lemma_rounded_div_exact(k, q);
}

/// The rounded quotient is within half a denominator of the true rational:
/// `|rounded_div(p, q) * q - p| <= q / 2`, stated without division.
pub proof fn lemma_rounded_div_error(p: int, q: int)
    requires
        q > 0,
    ensures
        2 * abs_int(rounded_div(p, q) * q - p) <= q,
    decreases (if p >= 0 { 0int } else { 1int }),
{
    if p >= 0 {
        let r = (2 * p + q) / (2 * q);
        let m = (2 * p + q) % (2 * q);
        assert(2 * p + q == (2 * q) * r + m) by {
            lemma_fundamental_div_mod(2 * p + q, 2 * q);
        }
        assert(0 <= m < 2 * q) by {
            lemma_mod_bound(2 * p + q, 2 * q);
        }
        assert((2 * q) * r == 2 * (r * q)) by (nonlinear_arith);
        assert(2 * (r * q - p) == q - m);
    } else {
        lemma_rounded_div_error(-p, q);
        lemma_rounded_div_neg(-p, q);
        assert(rounded_div(p, q) * q - p == -(rounded_div(-p, q) * q - (-p))) by (nonlinear_arith)
            requires
                rounded_div(p, q) == -rounded_div(-p, q),
        ;
    }
}

} // verus!
