//! Band-limited sawtooth synthesis and the plain sine generator.
//!
//! `sawtooth` sums the Fourier series of a sawtooth truncated to a finite
//! number of harmonics: `(2/pi) * sum_{n=1..h} (-1)^(n+1)/n * sin(n *
//! phase)`. One harmonic degenerates to a pure sine; more harmonics bring
//! the shape closer to the ideal sawtooth. `sine` follows the shared phase
//! formula `phase = 2 pi * frequency * sample_index / sample_rate` directly,
//! and the two `*_with_gain` transforms multiply an oscillator sample-wise
//! by an externally supplied gain curve.

use vstd::prelude::*;
use crate::fx::{
    AMP_MAX, FREQ_MAX, HARMONICS_MAX, PHASE_MAX, PI_FX, RATE_MAX, SCALE, TWO_PI_FX, div_t, mag,
    mul_fx_spec,
};
use crate::trig::{lemma_sin_bounds, lemma_sin_pos_mod, sin_spec, sine_fx};
use crate::envelope::amp_ok;

verus! {

/// Largest magnitude one sawtooth harmonic can contribute to the result:
/// `2 * SCALE * SCALE / PI_FX`, rounded up.
pub const SAW_UNIT: i64 = 636_620;

/// Harmonic `n` of the sawtooth series at `phase`:
/// `(-1)^(n+1) * sin(n * phase) / n`, in micro-units.
pub open spec fn saw_term_spec(phase: int, n: int) -> int {
    let t = div_t(sin_spec(n * phase), n);
    if n % 2 == 0 {
        -t
    } else {
        t
    }
}

/// Sum of the first `h` harmonics of the sawtooth series at `phase`.
pub open spec fn saw_sum_spec(phase: int, h: int) -> int
    decreases h,
{
    if h <= 0 {
        0
    } else {
        saw_sum_spec(phase, h - 1) + saw_term_spec(phase, h)
    }
}

/// The truncated sawtooth: the harmonic sum scaled by `2 / pi`.
pub open spec fn saw_spec(phase: int, h: int) -> int {
    div_t(2 * SCALE * saw_sum_spec(phase, h), PI_FX as int)
}

/// Oscillator phase for a zero-based sample index:
/// `2 pi * frequency * index / rate`, in micro-radians.
pub open spec fn phase_index_spec(freq_fx: int, rate_hz: int, idx: int) -> int {
    (TWO_PI_FX * freq_fx * idx) / (rate_hz * (SCALE as int))
}

/// Every harmonic contributes at most `SCALE` to the sum, so the sum of the
/// first `h` harmonics has magnitude at most `h * SCALE`.
pub proof fn lemma_saw_sum_bound(phase: int, h: int)
    requires
        h >= 0,
    ensures
        mag(saw_sum_spec(phase, h)) <= h * SCALE,
    decreases h,
{
    if h > 0 {
        lemma_saw_sum_bound(phase, h - 1);
        lemma_sin_bounds(h * phase);
        crate::fx::lemma_div_t_mag(sin_spec(h * phase), h);
        vstd::arithmetic::div_mod::lemma_div_nonincreasing(mag(sin_spec(h * phase)), h);
    }
}

/// The truncated sawtooth is bounded by `SAW_UNIT` per harmonic.
pub proof fn lemma_saw_bound(phase: int, h: int)
    requires
        h >= 0,
    ensures
        mag(saw_spec(phase, h)) <= h * SAW_UNIT,
{
    lemma_saw_sum_bound(phase, h);
    let sum = saw_sum_spec(phase, h);
    let a = 2 * SCALE * sum;
    crate::fx::lemma_div_t_mag(a, PI_FX as int);
    assert(mag(a) == 2 * SCALE * mag(sum)) by {
        if sum >= 0 {
            assert(a >= 0) by (nonlinear_arith)
                requires
                    a == 2 * 1_000_000 * sum,
                    sum >= 0,
            ;
        } else {
            assert(a < 0 && -a == 2 * 1_000_000 * (-sum)) by (nonlinear_arith)
                requires
                    a == 2 * 1_000_000 * sum,
                    sum < 0,
            ;
        }
    }
    assert(2 * SCALE * mag(sum) <= (SAW_UNIT * h) * (PI_FX as int)) by (nonlinear_arith)
        requires
            0 <= mag(sum) <= h * SCALE,
            SCALE == 1_000_000,
            SAW_UNIT == 636_620,
            PI_FX == 3_141_593,
    ;
    vstd::arithmetic::div_mod::lemma_div_is_ordered(
        mag(a),
        (SAW_UNIT * h) * (PI_FX as int),
        PI_FX as int,
    );
    vstd::arithmetic::div_mod::lemma_div_multiples_vanish(SAW_UNIT * h, PI_FX as int);
}

/// At phase 0 every sine term vanishes, so the sawtooth is exactly 0
/// whatever the harmonic count.
pub proof fn lemma_saw_zero(h: int)
    requires
        h >= 0,
    ensures
        saw_sum_spec(0, h) == 0,
        saw_spec(0, h) == 0,
    decreases h,
{
    if h > 0 {
        lemma_saw_zero(h - 1);
        lemma_sin_bounds(0);
        vstd::arithmetic::div_mod::lemma_div_of0(h);
    }
    vstd::arithmetic::div_mod::lemma_div_of0(PI_FX as int);
}

/// Law: one harmonic degenerates to a pure sine — the series with
/// `harmonic_count` 1 is exactly `(2 / pi) * sin(phase)`.
pub proof fn lemma_one_harmonic_is_sine(phase: int)
    ensures
        saw_sum_spec(phase, 1) == sin_spec(phase),
        saw_spec(phase, 1) == div_t(2 * SCALE * sin_spec(phase), PI_FX as int),
{
    vstd::arithmetic::div_mod::lemma_div_basics(sin_spec(phase));
    vstd::arithmetic::div_mod::lemma_div_basics(-sin_spec(phase));
    assert(1 * phase == phase);
    assert(saw_sum_spec(phase, 0) == 0);
    assert(saw_sum_spec(phase, 1) == saw_term_spec(phase, 1));
}

/// The sawtooth depends on its phase only modulo one turn.
pub proof fn lemma_saw_sum_periodic(phase: int, h: int)
    requires
        phase >= 0,
        h >= 0,
    ensures
        saw_sum_spec(phase % (TWO_PI_FX as int), h) == saw_sum_spec(phase, h),
    decreases h,
{
    vstd::arithmetic::div_mod::lemma_mod_bound(phase, TWO_PI_FX as int);
    if h > 0 {
        lemma_saw_sum_periodic(phase, h - 1);
        assert(h * phase >= 0 && h * (phase % (TWO_PI_FX as int)) >= 0) by (nonlinear_arith)
            requires
                h >= 1,
                phase >= 0,
                0 <= phase % (TWO_PI_FX as int),
        ;
        vstd::arithmetic::div_mod::lemma_mul_mod_noop_right(h, phase, TWO_PI_FX as int);
        lemma_sin_pos_mod(h * phase);
        lemma_sin_pos_mod(h * (phase % (TWO_PI_FX as int)));
        assert(sin_spec(h * (phase % (TWO_PI_FX as int))) == sin_spec(h * phase));
    }
}

/// One sample of the band-limited sawtooth at an instantaneous phase given
/// in micro-radians.
///
/// The result equals the truncated Fourier series `saw_spec`, stays within
/// `SAW_UNIT` per harmonic, and is exactly 0 at phase 0.
pub fn sawtooth(phase_fx: i64, harmonics: u32) -> (r: i64)
    requires
        -PHASE_MAX <= phase_fx <= PHASE_MAX,
        harmonics <= HARMONICS_MAX,
    ensures
        r == saw_spec(phase_fx as int, harmonics as int),
        mag(r as int) <= (harmonics as int) * SAW_UNIT,
        phase_fx == 0 ==> r == 0,
{
    let mut acc: i64 = 0;
    let mut n: u32 = 1;
    while n <= harmonics
        invariant
            1 <= n <= harmonics + 1,
            harmonics <= HARMONICS_MAX,
            -PHASE_MAX <= phase_fx <= PHASE_MAX,
            acc == saw_sum_spec(phase_fx as int, (n - 1) as int),
            mag(acc as int) <= (n - 1) * SCALE,
        decreases harmonics + 1 - n,
    {
        let nn: i64 = n as i64;
        proof {
            assert(mag(nn * phase_fx) <= HARMONICS_MAX * PHASE_MAX) by (nonlinear_arith)
                requires
                    1 <= nn <= HARMONICS_MAX,
                    -PHASE_MAX <= phase_fx <= PHASE_MAX,
            ;
        }
        let x: i64 = nn * phase_fx;
        let sv: i64 = sine_fx(x);
        let t: i64 = sv / nn;
        proof {
            crate::fx::lemma_div_t_mag(sv as int, nn as int);
            vstd::arithmetic::div_mod::lemma_div_nonincreasing(mag(sv as int), nn as int);
            assert(saw_sum_spec(phase_fx as int, n as int) == saw_sum_spec(
                phase_fx as int,
                n as int - 1,
            ) + saw_term_spec(phase_fx as int, n as int));
        }
        if n % 2 == 0 {
            acc = acc - t;
        } else {
            acc = acc + t;
        }
        n = n + 1;
    }
    proof {
        lemma_saw_bound(phase_fx as int, harmonics as int);
        if phase_fx == 0 {
            lemma_saw_zero(harmonics as int);
        }
    }
    (2 * SCALE * acc) / PI_FX
}

/// One sample of a pure sine at `freq_fx` micro-Hz and the given sample
/// rate, for a zero-based sample index.
pub fn sine(freq_fx: i64, sample_rate_hz: i64, sample_index: usize) -> (r: i64)
    requires
        1 <= sample_rate_hz <= RATE_MAX,
        0 <= freq_fx <= FREQ_MAX,
    ensures
        r == sin_spec(phase_index_spec(freq_fx as int, sample_rate_hz as int, sample_index as int)),
        -SCALE <= r <= SCALE,
{
    proof {
        assert(0 <= (TWO_PI_FX as int) * (freq_fx as int) * (sample_index as int)
            <= 2_400_000_000_000_000_000_000_000_000_000_000_000int) by (nonlinear_arith)
            requires
                0 <= freq_fx <= 20_000_000_000,
                0 <= sample_index < 18_446_744_073_709_551_616int,
                TWO_PI_FX == 6_283_186,
        ;
    }
    proof {
        assert(0 < (sample_rate_hz as int) * (SCALE as int) <= 10_000_000_000_000int)
            by (nonlinear_arith)
            requires
                1 <= sample_rate_hz <= 10_000_000,
                SCALE == 1_000_000,
        ;
    }
    let num: i128 = (TWO_PI_FX as i128) * (freq_fx as i128) * (sample_index as i128);
    let den: i128 = (sample_rate_hz as i128) * (SCALE as i128);
    proof {
        vstd::arithmetic::div_mod::lemma_div_pos_is_pos(
            (TWO_PI_FX as int) * (freq_fx as int) * (sample_index as int),
            (sample_rate_hz as int) * (SCALE as int),
        );
    }
    let raw: i128 = num / den;
    let ph: i128 = raw % (TWO_PI_FX as i128);
    proof {
        vstd::arithmetic::div_mod::lemma_mod_bound(raw as int, TWO_PI_FX as int);
        lemma_sin_pos_mod(raw as int);
    }
    let p: i64 = ph as i64;
    sine_fx(p)
}

/// A sine scaled sample-wise by a gain curve: output `i` is the sine at
/// index `i` times `curve[i]`, and the output has the curve's length.
pub fn sine_with_gain(freq_fx: i64, sample_rate_hz: i64, curve: &Vec<i64>) -> (out: Vec<i64>)
    requires
        1 <= sample_rate_hz <= RATE_MAX,
        0 <= freq_fx <= FREQ_MAX,
        amp_ok(curve@),
    ensures
        out@.len() == curve@.len(),
        forall|i: int|
            0 <= i < curve@.len() ==> #[trigger] out@[i] == mul_fx_spec(
                sin_spec(phase_index_spec(freq_fx as int, sample_rate_hz as int, i)),
                curve@[i] as int,
            ),
{
    let n: usize = curve.len();
    let mut out: Vec<i64> = Vec::new();
    let mut i: usize = 0;
    while i < n
        invariant
            0 <= i <= n,
            n == curve@.len(),
            1 <= sample_rate_hz <= RATE_MAX,
            0 <= freq_fx <= FREQ_MAX,
            amp_ok(curve@),
            out@.len() == i,
            forall|k: int|
                0 <= k < i ==> #[trigger] out@[k] == mul_fx_spec(
                    sin_spec(phase_index_spec(freq_fx as int, sample_rate_hz as int, k)),
                    curve@[k] as int,
                ),
        decreases n - i,
    {
        let v: i64 = sine(freq_fx, sample_rate_hz, i);
        let g: i64 = curve[i];
        proof {
            assert(-(SCALE * AMP_MAX) <= (v as int) * (g as int) <= SCALE * AMP_MAX)
                by (nonlinear_arith)
                requires
                    -SCALE <= v <= SCALE,
                    -AMP_MAX <= g <= AMP_MAX,
            ;
        }
        out.push(crate::fx::mul_fx(v, g));
        i = i + 1;
    }
    out
}

/// A band-limited sawtooth scaled sample-wise by a gain curve: output `i` is
/// the sawtooth at the phase of index `i` times `curve[i]`.
pub fn saw_with_gain(
    freq_fx: i64,
    sample_rate_hz: i64,
    harmonics: u32,
    curve: &Vec<i64>,
) -> (out: Vec<i64>)
    requires
        1 <= sample_rate_hz <= RATE_MAX,
        0 <= freq_fx <= FREQ_MAX,
        harmonics <= HARMONICS_MAX,
        amp_ok(curve@),
    ensures
        out@.len() == curve@.len(),
        forall|i: int|
            0 <= i < curve@.len() ==> #[trigger] out@[i] == mul_fx_spec(
                saw_spec(
                    phase_index_spec(freq_fx as int, sample_rate_hz as int, i),
                    harmonics as int,
                ),
                curve@[i] as int,
            ),
{
    let n: usize = curve.len();
    let mut out: Vec<i64> = Vec::new();
    let mut i: usize = 0;
    while i < n
        invariant
            0 <= i <= n,
            n == curve@.len(),
            1 <= sample_rate_hz <= RATE_MAX,
            0 <= freq_fx <= FREQ_MAX,
            harmonics <= HARMONICS_MAX,
            amp_ok(curve@),
            out@.len() == i,
            forall|k: int|
                0 <= k < i ==> #[trigger] out@[k] == mul_fx_spec(
                    saw_spec(
                        phase_index_spec(freq_fx as int, sample_rate_hz as int, k),
                        harmonics as int,
                    ),
                    curve@[k] as int,
                ),
        decreases n - i,
    {
        proof {
            assert(0 <= (TWO_PI_FX as int) * (freq_fx as int) * (i as int)
                <= 2_400_000_000_000_000_000_000_000_000_000_000_000int) by (nonlinear_arith)
                requires
                    0 <= freq_fx <= 20_000_000_000,
                    0 <= i < 18_446_744_073_709_551_616int,
                    TWO_PI_FX == 6_283_186,
            ;
        }
        proof {
            assert(0 < (sample_rate_hz as int) * (SCALE as int) <= 10_000_000_000_000int)
                by (nonlinear_arith)
                requires
                    1 <= sample_rate_hz <= 10_000_000,
                    SCALE == 1_000_000,
            ;
        }
        let num: i128 = (TWO_PI_FX as i128) * (freq_fx as i128) * (i as i128);
        let den: i128 = (sample_rate_hz as i128) * (SCALE as i128);
        proof {
            vstd::arithmetic::div_mod::lemma_div_pos_is_pos(
                (TWO_PI_FX as int) * (freq_fx as int) * (i as int),
                (sample_rate_hz as int) * (SCALE as int),
            );
        }
        let raw: i128 = num / den;
        let ph: i128 = raw % (TWO_PI_FX as i128);
        proof {
            vstd::arithmetic::div_mod::lemma_mod_bound(raw as int, TWO_PI_FX as int);
            lemma_saw_sum_periodic(raw as int, harmonics as int);
        }
        let p: i64 = ph as i64;
        let v: i64 = sawtooth(p, harmonics);
        let g: i64 = curve[i];
        proof {
            assert(-((HARMONICS_MAX as int) * SAW_UNIT * AMP_MAX) <= (v as int) * (g as int)
                <= (HARMONICS_MAX as int) * SAW_UNIT * AMP_MAX) by (nonlinear_arith)
                requires
                    mag(v as int) <= (harmonics as int) * SAW_UNIT,
                    0 <= harmonics <= HARMONICS_MAX,
                    -AMP_MAX <= g <= AMP_MAX,
                    SAW_UNIT == 636_620,
            ;
        }
        out.push(crate::fx::mul_fx(v, g));
        i = i + 1;
    }
    out
}

} // verus!
