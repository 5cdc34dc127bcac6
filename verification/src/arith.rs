//! Facts about products and quotients that the effects share.

use vstd::prelude::*;

verus! {

/// A product of two bounded naturals is bounded by the product of the bounds.
pub proof fn lemma_mul_le(a: int, b: int, hi_a: int, hi_b: int)
    by (nonlinear_arith)
    requires
        0 <= a <= hi_a,
        0 <= b <= hi_b,
    ensures
        0 <= a * b <= hi_a * hi_b,
{
}

/// A product with one factor bounded in absolute value is bounded in
/// absolute value.
pub proof fn lemma_mul_abs_le(a: int, b: int, hi_a: int, hi_b: int)
    by (nonlinear_arith)
    requires
        -hi_a <= a <= hi_a,
        -hi_b <= b <= hi_b,
    ensures
        -(hi_a * hi_b) <= a * b <= hi_a * hi_b,
{
}

/// Dividing a product by its own bound on one factor leaves at most the
/// other factor.
pub proof fn lemma_scaled_le(a: int, f: int, one: int)
    by (nonlinear_arith)
    requires
        0 <= a,
        0 <= f <= one,
        0 < one,
    ensures
        0 <= (a * f) / one <= a,
{
    assert(a * f <= a * one);
    assert((a * one) / one == a);
}

/// The quotient of a natural by a positive divisor, times the divisor, does
/// not exceed the natural.
pub proof fn lemma_div_mul_le(a: int, d: int)
    by (nonlinear_arith)
    requires
        0 <= a,
        0 < d,
    ensures
        0 <= a / d,
        (a / d) * d <= a,
        a < (a / d) * d + d,
        a / d <= a,
{
}

/// A quotient of naturals is zero exactly when the dividend is smaller than
/// the divisor.
pub proof fn lemma_div_zero_iff(a: int, d: int)
    by (nonlinear_arith)
    requires
        0 <= a,
        0 < d,
    ensures
        a / d == 0 <==> a < d,
{
}

/// A multiple divided by its factor gives the other factor, without
/// remainder.
pub proof fn lemma_div_exact(a: int, d: int)
    by (nonlinear_arith)
    requires
        0 < d,
    ensures
        (a * d) / d == a,
        (a * d) % d == 0,
        (d * a) / d == a,
        (d * a) % d == 0,
{
}

/// A product is monotone in a non-negative factor.
pub proof fn lemma_mul_mono(a: int, b: int, c: int)
    by (nonlinear_arith)
    requires
        0 <= a,
        b <= c,
    ensures
        a * b <= a * c,
        b * a <= c * a,
{
}

/// A quotient is monotone in the dividend.
pub proof fn lemma_div_mono(a: int, b: int, d: int)
    by (nonlinear_arith)
    requires
        a <= b,
        0 < d,
    ensures
        a / d <= b / d,
{
}

} // verus!
