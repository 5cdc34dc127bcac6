//! Sine and cosine on whole numbers.
//!
//! An angle is a `u32` that counts fractions `1 / 2^32` of a full turn, so
//! that adding angles wraps around as turning does.  A sine or cosine is an
//! `i32` that holds the value times `2^30`.  Within a quarter turn the sine
//! is an odd polynomial of degree nine in the fraction of the quarter turn,
//! evaluated from the inside out with every product rounded down; its
//! coefficients add up to one, so that the quarter turn itself gives exactly
//! one.

use vstd::prelude::*;
use crate::arith::{lemma_mul_le, lemma_scaled_le};

verus! {

/// A quarter turn as an angle, and the value one of a sine.
pub const QUARTER: u32 = 0x4000_0000;

/// The coefficients of the first to ninth power, times `2^30`; those of the
/// third and seventh power are subtracted.
pub const C1: u64 = 1_686_629_678;

pub const C3: u64 = 693_597_909;

pub const C5: u64 = 85_564_899;

pub const C7: u64 = 5_016_746;

pub const C9: u64 = 161_902;

/// `a / 2^30 * b`, rounded down.
pub open spec fn scale(a: int, b: int) -> int {
    (a * b) / 0x4000_0000
}

/// The sine of `u / 2^30` quarter turns, for `u` from zero to `2^30`.
#[verifier::opaque]
pub open spec fn quarter_sine(u: int) -> int {
    let u2: int = scale(u, u);
    let t7: int = C7 as int - scale(C9 as int, u2);
    let t5: int = C5 as int - scale(t7, u2);
    let t3: int = C3 as int - scale(t5, u2);
    let t1: int = C1 as int - scale(t3, u2);
    let s: int = scale(t1, u);
    if s > 0x4000_0000 {
        0x4000_0000
    } else {
        s
    }
}

/// The sine of `angle`, for an angle from zero to below `2^32`: the sine of
/// the first quarter turn, mirrored about the quarter turn and negated in
/// the second half turn.
pub open spec fn sine(angle: int) -> int {
    let q: int = angle / 0x4000_0000;
    let u: int = angle % 0x4000_0000;
    if q == 0 {
        quarter_sine(u)
    } else if q == 1 {
        quarter_sine(0x4000_0000 - u)
    } else if q == 2 {
        -quarter_sine(u)
    } else {
        -quarter_sine(0x4000_0000 - u)
    }
}

/// The cosine of `angle`: the sine a quarter turn further on.
pub open spec fn cosine(angle: int) -> int {
    sine((angle + 0x4000_0000) % 0x1_0000_0000)
}

/// The angle that is the fraction `num / den` of a full turn, rounded down,
/// for `num` below `den`.
pub open spec fn turn_fraction(num: int, den: int) -> int {
    (num * 0x1_0000_0000) / den
}

/// The angle opposite to `angle`: the one that adds up with it to a full
/// turn.
pub open spec fn opposite(angle: int) -> int {
    (0x1_0000_0000 - angle) % 0x1_0000_0000
}

fn quarter_sin(u: u32) -> (s: u32)
    requires
        u <= QUARTER,
    ensures
        s == quarter_sine(u as int),
        s <= QUARTER,
{
    let one: u64 = QUARTER as u64;
    proof {
        reveal(quarter_sine);
        lemma_mul_le(u as int, u as int, QUARTER as int, QUARTER as int);
        lemma_scaled_le(u as int, u as int, QUARTER as int);
    }
    let u2: u64 = ((u as u64) * (u as u64)) / one;
    proof {
        lemma_mul_le(C9 as int, u2 as int, C9 as int, QUARTER as int);
        lemma_scaled_le(C9 as int, u2 as int, QUARTER as int);
    }
    let t7: u64 = C7 - (C9 * u2) / one;
    proof {
        lemma_mul_le(t7 as int, u2 as int, C7 as int, QUARTER as int);
        lemma_scaled_le(t7 as int, u2 as int, QUARTER as int);
    }
    let t5: u64 = C5 - (t7 * u2) / one;
    proof {
        lemma_mul_le(t5 as int, u2 as int, C5 as int, QUARTER as int);
        lemma_scaled_le(t5 as int, u2 as int, QUARTER as int);
    }
    let t3: u64 = C3 - (t5 * u2) / one;
    proof {
        lemma_mul_le(t3 as int, u2 as int, C3 as int, QUARTER as int);
        lemma_scaled_le(t3 as int, u2 as int, QUARTER as int);
    }
    let t1: u64 = C1 - (t3 * u2) / one;
    proof {
        lemma_mul_le(t1 as int, u as int, C1 as int, QUARTER as int);
        lemma_scaled_le(t1 as int, u as int, QUARTER as int);
    }
    let s: u64 = (t1 * (u as u64)) / one;
    if s > one {
        QUARTER
    } else {
        s as u32
    }
}

/// The sine of `angle`, times `2^30`.
pub fn sin(angle: u32) -> (s: i32)
    ensures
        s == sine(angle as int),
        -QUARTER <= s <= QUARTER,
{
    let q: u32 = angle / QUARTER;
    let u: u32 = angle % QUARTER;
    if q == 0 {
        quarter_sin(u) as i32
    } else if q == 1 {
        quarter_sin(QUARTER - u) as i32
    } else if q == 2 {
        -(quarter_sin(u) as i32)
    } else {
        -(quarter_sin(QUARTER - u) as i32)
    }
}

/// The cosine of `angle`, times `2^30`.
pub fn cos(angle: u32) -> (c: i32)
    ensures
        c == cosine(angle as int),
        -QUARTER <= c <= QUARTER,
{
    sin((((angle as u64) + (QUARTER as u64)) % 0x1_0000_0000) as u32)
}

/// The fraction `num / den` of a full turn as an angle, rounded down.
pub fn angle_of_fraction(num: u64, den: u64) -> (angle: u32)
    requires
        num < den,
    ensures
        angle == turn_fraction(num as int, den as int),
{
    proof {
        assert(0 <= (num * 0x1_0000_0000) / (den as int) < 0x1_0000_0000) by (nonlinear_arith)
            requires
                0 <= num < den,
        ;
    }
    (((num as u128) * 0x1_0000_0000) / (den as u128)) as u32
}

/// The angle opposite to `angle`.
pub fn opposite_angle(angle: u32) -> (back: u32)
    ensures
        back == opposite(angle as int),
{
    ((0x1_0000_0000 - (angle as u64)) % 0x1_0000_0000) as u32
}

/// No sine or cosine lies beyond one.
pub proof fn law_sine_bounded(angle: int)
    requires
        0 <= angle < 0x1_0000_0000,
    ensures
        -0x4000_0000 <= sine(angle) <= 0x4000_0000,
        -0x4000_0000 <= cosine(angle) <= 0x4000_0000,
{
    lemma_quarter_bounded(angle % 0x4000_0000);
    lemma_quarter_bounded(0x4000_0000 - angle % 0x4000_0000);
    let ahead: int = (angle + 0x4000_0000) % 0x1_0000_0000;
    lemma_quarter_bounded(ahead % 0x4000_0000);
    lemma_quarter_bounded(0x4000_0000 - ahead % 0x4000_0000);
}

proof fn lemma_quarter_bounded(u: int)
    requires
        0 <= u <= 0x4000_0000,
    ensures
        0 <= quarter_sine(u) <= 0x4000_0000,
{
    reveal(quarter_sine);
    let one: int = 0x4000_0000;
    lemma_scaled_le(u, u, one);
    let u2: int = scale(u, u);
    lemma_scaled_le(C9 as int, u2, one);
    let t7: int = C7 as int - scale(C9 as int, u2);
    lemma_scaled_le(t7, u2, one);
    let t5: int = C5 as int - scale(t7, u2);
    lemma_scaled_le(t5, u2, one);
    let t3: int = C3 as int - scale(t5, u2);
    lemma_scaled_le(t3, u2, one);
    let t1: int = C1 as int - scale(t3, u2);
    lemma_scaled_le(t1, u, one);
}

/// At the four quarter turns the sine is exactly zero, one, zero and minus
/// one, and the cosine exactly one, zero, minus one and zero.
pub proof fn law_sine_at_quarters()
    ensures
        sine(0) == 0,
        sine(0x4000_0000) == 0x4000_0000,
        sine(0x8000_0000) == 0,
        sine(0xC000_0000) == -0x4000_0000,
        cosine(0) == 0x4000_0000,
        cosine(0x4000_0000) == 0,
        cosine(0x8000_0000) == -0x4000_0000,
        cosine(0xC000_0000) == 0,
{
    reveal(quarter_sine);
    assert(quarter_sine(0) == 0);
    assert(scale(0x4000_0000, 0x4000_0000) == 0x4000_0000);
    assert(scale(C9 as int, 0x4000_0000) == C9);
    assert(scale(C7 - C9, 0x4000_0000) == C7 - C9);
    assert(scale(C5 - (C7 - C9), 0x4000_0000) == C5 - (C7 - C9));
    assert(scale(C3 - (C5 - (C7 - C9)), 0x4000_0000) == C3 - (C5 - (C7 - C9)));
    assert(scale(C1 - (C3 - (C5 - (C7 - C9))), 0x4000_0000) == 0x4000_0000);
    assert(quarter_sine(0x4000_0000) == 0x4000_0000);
}

/// Turning the other way negates the sine and keeps the cosine.
pub proof fn law_sine_odd(angle: int)
    requires
        0 <= angle < 0x1_0000_0000,
    ensures
        sine(opposite(angle)) == -sine(angle),
        cosine(opposite(angle)) == cosine(angle),
{
    assert(quarter_sine(0) == 0) by {
        reveal(quarter_sine);
    }
}

} // verus!
