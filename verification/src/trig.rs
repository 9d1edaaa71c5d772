//! Sine in the fixed-point domain.
//!
//! The model's sine is a quarter-turn rational approximation (Bhaskara's
//! formula) extended to the whole line by oddness and periodicity. It is
//! exact at every multiple of half a turn and stays within one micro-unit
//! of amplitude one elsewhere, which is what the oscillator contracts rely
//! on: the result is always within `[-SCALE, SCALE]` and vanishes at phase
//! zero.

use vstd::prelude::*;
use crate::fx::{PI_FX, SCALE, TWO_PI_FX};

verus! {

/// Rational sine on a half turn: for `x` in `[0, PI_FX]`,
/// `16 x (pi - x) / (5 pi^2 - 4 x (pi - x))`, rescaled to micro-units.
/// The division by 1000 keeps every intermediate product inside an `i64`.
pub open spec fn sin_half_spec(x: int) -> int {
    let q = x * (PI_FX - x);
    (16 * (q / 1000) * SCALE) / ((5 * PI_FX * PI_FX - 4 * q) / 1000)
}

/// Sine of a non-negative phase: reduce to one turn, use the half-turn
/// formula on the first half and its negation on the second.
pub open spec fn sin_pos_spec(x: int) -> int {
    let p = x % (TWO_PI_FX as int);
    if p < PI_FX {
        sin_half_spec(p)
    } else {
        -sin_half_spec(p - PI_FX)
    }
}

/// The model sine: odd extension of `sin_pos_spec` to negative phases.
pub open spec fn sin_spec(x: int) -> int {
    if x >= 0 {
        sin_pos_spec(x)
    } else {
        -sin_pos_spec(-x)
    }
}

/// On a half turn the rational sine lies in `[0, SCALE]` and is exactly 0 at
/// both ends.
pub proof fn lemma_sin_half_bounds(x: int)
    requires
        0 <= x <= PI_FX,
    ensures
        0 <= sin_half_spec(x) <= SCALE,
        x == 0 ==> sin_half_spec(x) == 0,
        x == PI_FX ==> sin_half_spec(x) == 0,
{
    let q = x * (PI_FX - x);
    let qa = q / 1000;
    let den = (5 * PI_FX * PI_FX - 4 * q) / 1000;
    assert(0 <= q && 4 * q <= PI_FX * PI_FX) by (nonlinear_arith)
        requires
            0 <= x <= PI_FX,
            q == x * (PI_FX - x),
    ;
    vstd::arithmetic::div_mod::lemma_div_pos_is_pos(q, 1000);
    vstd::arithmetic::div_mod::lemma_div_pos_is_pos(5 * PI_FX * PI_FX - 4 * q, 1000);
    // den is strictly positive: the numerator is at least PI_FX * PI_FX.
    vstd::arithmetic::div_mod::lemma_div_is_ordered(
        (PI_FX * PI_FX) as int,
        5 * PI_FX * PI_FX - 4 * q,
        1000,
    );
    assert((PI_FX * PI_FX) / 1000 > 0);
    // 16 * qa <= den, because 16000 * qa <= 16 * q <= 5 pi^2 - 4 q.
    vstd::arithmetic::div_mod::lemma_fundamental_div_mod(q, 1000);
    vstd::arithmetic::div_mod::lemma_mod_bound(q, 1000);
    assert(16000 * qa <= 16 * q) by (nonlinear_arith)
        requires
            1000 * qa <= q,
    ;
    vstd::arithmetic::div_mod::lemma_div_is_ordered(16000 * qa, 5 * PI_FX * PI_FX - 4 * q, 1000);
    vstd::arithmetic::div_mod::lemma_div_multiples_vanish(16 * qa, 1000);
    assert(16 * qa <= den);
    // hence the quotient is at most SCALE
    vstd::arithmetic::mul::lemma_mul_inequality(16 * qa, den, SCALE as int);
    assert(16 * qa * SCALE == 16 * (q / 1000) * SCALE);
    vstd::arithmetic::div_mod::lemma_div_is_ordered(16 * qa * SCALE, den * SCALE, den);
    vstd::arithmetic::div_mod::lemma_div_multiples_vanish(SCALE as int, den);
    // and non-negative
    assert(16 * qa * SCALE >= 0) by (nonlinear_arith)
        requires
            qa >= 0,
    ;
    vstd::arithmetic::div_mod::lemma_div_pos_is_pos(16 * qa * SCALE, den);
    if x == 0 || x == PI_FX {
        assert(q == 0) by (nonlinear_arith)
            requires
                q == x * (PI_FX - x),
                x == 0 || x == PI_FX,
        ;
    }
}

/// The model sine always lies in `[-SCALE, SCALE]`, and is exactly 0 at
/// phase 0.
pub proof fn lemma_sin_bounds(x: int)
    ensures
        -SCALE <= sin_spec(x) <= SCALE,
        x == 0 ==> sin_spec(x) == 0,
{
    let y = if x >= 0 { x } else { -x };
    let p = y % (TWO_PI_FX as int);
    vstd::arithmetic::div_mod::lemma_mod_bound(y, TWO_PI_FX as int);
    if p < PI_FX {
        lemma_sin_half_bounds(p);
    } else {
        lemma_sin_half_bounds(p - PI_FX);
    }
    if x == 0 {
        vstd::arithmetic::div_mod::lemma_small_mod(0nat, TWO_PI_FX as nat);
    }
}

/// A non-negative phase may be reduced to one turn before taking the sine.
pub proof fn lemma_sin_pos_mod(x: int)
    requires
        x >= 0,
    ensures
        sin_pos_spec(x % (TWO_PI_FX as int)) == sin_pos_spec(x),
{
    vstd::arithmetic::div_mod::lemma_mod_bound(x, TWO_PI_FX as int);
    vstd::arithmetic::div_mod::lemma_small_mod((x % (TWO_PI_FX as int)) as nat, TWO_PI_FX as nat);
}

fn sin_half(x: i64) -> (r: i64)
    requires
        0 <= x <= PI_FX,
    ensures
        r == sin_half_spec(x as int),
        0 <= r <= SCALE,
{
    proof {
        lemma_sin_half_bounds(x as int);
        assert(0 <= x * (PI_FX - x) && 4 * (x * (PI_FX - x)) <= PI_FX * PI_FX) by (nonlinear_arith)
            requires
                0 <= x <= PI_FX,
        ;
    }
    let q: i64 = x * (PI_FX - x);
    proof {
        vstd::arithmetic::div_mod::lemma_div_pos_is_pos(q as int, 1000);
        vstd::arithmetic::div_mod::lemma_div_is_ordered(q as int, (PI_FX * PI_FX) as int, 1000);
        vstd::arithmetic::div_mod::lemma_div_pos_is_pos(5 * PI_FX * PI_FX - 4 * (q as int), 1000);
        vstd::arithmetic::div_mod::lemma_div_is_ordered(
            (PI_FX * PI_FX) as int,
            5 * PI_FX * PI_FX - 4 * (q as int),
            1000,
        );
        assert((PI_FX * PI_FX) / 1000 > 0);
    }
    let qa: i64 = q / 1000;
    let num: i64 = 16 * qa * SCALE;
    let den: i64 = (5 * PI_FX * PI_FX - 4 * q) / 1000;
    num / den
}

fn sin_pos(x: i64) -> (r: i64)
    requires
        x >= 0,
    ensures
        r == sin_pos_spec(x as int),
        -SCALE <= r <= SCALE,
{
    let p: i64 = x % TWO_PI_FX;
    proof {
        vstd::arithmetic::div_mod::lemma_mod_bound(x as int, TWO_PI_FX as int);
    }
    if p < PI_FX {
        sin_half(p)
    } else {
        let v: i64 = sin_half(p - PI_FX);
        -v
    }
}

/// Sine of a phase given in micro-radians, in micro-units of amplitude.
pub fn sine_fx(x: i64) -> (r: i64)
    requires
        x > i64::MIN,
    ensures
        r == sin_spec(x as int),
        -SCALE <= r <= SCALE,
{
    if x >= 0 {
        sin_pos(x)
    } else {
        let v: i64 = sin_pos(-x);
        -v
    }
}

} // verus!
