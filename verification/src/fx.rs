//! Fixed-point representation shared by the whole pipeline.
//!
//! A signal value is an `i64` counting micro-units: `SCALE` stands for 1.0,
//! `PI_FX` for pi radians. The constants below bound the inputs the library
//! accepts so that every intermediate product fits in an `i64`.

use vstd::prelude::*;

verus! {

/// Fixed-point unit: the integer that stands for 1.0.
pub const SCALE: i64 = 1_000_000;

/// Pi in micro-radians, rounded to nearest.
pub const PI_FX: i64 = 3_141_593;

/// One full turn in micro-radians.
pub const TWO_PI_FX: i64 = 2 * PI_FX;

/// Largest sample magnitude the pipeline accepts (1000.0).
pub const AMP_MAX: i64 = 1_000_000_000;

/// Largest sample rate accepted, in Hz.
pub const RATE_MAX: i64 = 10_000_000;

/// Largest attack or release time constant accepted, in micro-milliseconds.
pub const TIME_MAX: i64 = 600_000_000_000;

/// Largest oscillator phase magnitude accepted, in micro-radians.
pub const PHASE_MAX: i64 = 1_000_000_000_000;

/// Largest harmonic count accepted by the sawtooth oscillator.
pub const HARMONICS_MAX: u32 = 10_000;

/// Largest oscillator frequency accepted, in micro-Hz (20 kHz).
pub const FREQ_MAX: i64 = 20_000_000_000;

/// Largest post-gain factor accepted (16.0).
pub const GAIN_FX_MAX: i64 = 16_000_000;

/// Largest channel count a block may carry.
pub const CHANNELS_MAX: usize = 256;

/// Largest block length the pipeline accepts.
pub const BLOCK_MAX: usize = 1_000_000;

/// Truncating (round-toward-zero) division: the meaning of `/` on `i64`.
pub open spec fn div_t(a: int, b: int) -> int {
    if a >= 0 {
        a / b
    } else {
        -((-a) / b)
    }
}

/// Magnitude of a signal value.
pub open spec fn mag(a: int) -> int {
    if a >= 0 {
        a
    } else {
        -a
    }
}

/// Fixed-point product: `a * b` rescaled back to micro-units.
pub open spec fn mul_fx_spec(a: int, b: int) -> int {
    div_t(a * b, SCALE as int)
}

/// Truncating division never grows the magnitude of an exact quotient:
/// `|div_t(a, b)| <= |a| / b`.
pub proof fn lemma_div_t_mag(a: int, b: int)
    requires
        b > 0,
    ensures
        mag(div_t(a, b)) <= mag(a) / b,
        div_t(a, b) == 0 <==> mag(a) < b,
{
    let m = mag(a);
    vstd::arithmetic::div_mod::lemma_div_pos_is_pos(m, b);
    vstd::arithmetic::div_mod::lemma_div_nonincreasing(m, b);
    if m < b {
        vstd::arithmetic::div_mod::lemma_basic_div(m, b);
    } else {
        vstd::arithmetic::div_mod::lemma_div_non_zero(m, b);
    }
}

/// Exec fixed-point multiply, equal to its spec on every input whose exact
/// product fits in an `i64`.
pub fn mul_fx(a: i64, b: i64) -> (r: i64)
    requires
        i64::MIN < a * b <= i64::MAX,
    ensures
        r == mul_fx_spec(a as int, b as int),
{
    (a * b) / SCALE
}

} // verus!
