//! Envelope follower: a one-pole smoothing filter that turns an audio-rate
//! signal into a non-negative gain-control curve, with independent attack and
//! release time constants, plus element-wise application of such a curve.
//!
//! Per sample the follower rectifies the input, picks the attack coefficient
//! when the target is above the current level and the release coefficient
//! otherwise, and moves the level toward the target by `coefficient *
//! (target - level)`. A coefficient is derived from a time constant `t` (in
//! micro-milliseconds) as `1 - exp(-2.2 / samples_for_time)`, with a
//! non-positive `t` meaning an instantaneous jump.

use vstd::prelude::*;
use crate::fx::{AMP_MAX, RATE_MAX, SCALE, TIME_MAX, div_t, mag};

verus! {

/// Second fixed-point scale used only while deriving coefficients: an `i64`
/// counts pico-units, so `SCALE2` stands for 1.0.
pub const SCALE2: i64 = 1_000_000_000_000;

/// `2.2 * SCALE * SCALE2`: dividing it by a sample count in micro-units
/// yields `2.2 / samples` in pico-units.
pub const EXP_Y_NUM: i64 = 2_200_000_000_000_000_000;

/// `2^20`: the argument is split this finely before repeated squaring.
pub const EXP_STEPS: i64 = 1_048_576;

/// `b / SCALE2` squared `k` times, staying in pico-units.
pub open spec fn sq_chain(b: int, k: nat) -> int
    decreases k,
{
    if k == 0 {
        b
    } else {
        sq_chain((b * b) / (SCALE2 as int), (k - 1) as nat)
    }
}

/// Decaying exponential `exp(-y)` for `y` in pico-units, in pico-units:
/// `(1 - y / 2^20)` squared twenty times, and 0 once `y` is so large that
/// the true value is below the resolution of the result.
pub open spec fn exp_decay_spec(y: int) -> int {
    if y >= 30 * SCALE2 {
        0
    } else {
        sq_chain((SCALE2 as int) - y / (EXP_STEPS as int), 20)
    }
}

/// Smoothing coefficient, in micro-units, for a time constant `t_ms_fx`
/// (micro-milliseconds) at `rate_hz`: 1 for a non-positive time constant,
/// else `1 - exp(-2.2 / samples_for_time)` where `samples_for_time =
/// t_ms_fx / 1000 * rate_hz`.
pub open spec fn coeff_spec(t_ms_fx: int, rate_hz: int) -> int {
    if t_ms_fx <= 0 {
        SCALE as int
    } else {
        let n_fx = (t_ms_fx * rate_hz) / 1000;
        if n_fx == 0 {
            SCALE as int
        } else {
            (SCALE as int) - exp_decay_spec((EXP_Y_NUM as int) / n_fx) / (SCALE as int)
        }
    }
}

/// Repeated squaring keeps a pico-unit value inside `[0, SCALE2]`.
pub proof fn lemma_sq_chain_range(b: int, k: nat)
    requires
        0 <= b <= SCALE2,
    ensures
        0 <= sq_chain(b, k) <= SCALE2,
    decreases k,
{
    if k > 0 {
        let bb = b * b;
        assert(0 <= bb && bb <= SCALE2 * SCALE2) by (nonlinear_arith)
            requires
                0 <= b <= SCALE2,
                bb == b * b,
        ;
        vstd::arithmetic::div_mod::lemma_div_pos_is_pos(bb, SCALE2 as int);
        vstd::arithmetic::div_mod::lemma_div_is_ordered(bb, (SCALE2 * SCALE2) as int, SCALE2 as int);
        vstd::arithmetic::div_mod::lemma_div_multiples_vanish(SCALE2 as int, SCALE2 as int);
        lemma_sq_chain_range(bb / (SCALE2 as int), (k - 1) as nat);
    }
}

/// A coefficient always lies in `[0, SCALE]`, and a non-positive time
/// constant yields exactly `SCALE` (an instantaneous jump to the target).
pub proof fn lemma_coeff_range(t_ms_fx: int, rate_hz: int)
    requires
        rate_hz >= 1,
    ensures
        0 <= coeff_spec(t_ms_fx, rate_hz) <= SCALE,
        t_ms_fx <= 0 ==> coeff_spec(t_ms_fx, rate_hz) == SCALE,
{
    if t_ms_fx > 0 {
        let n_fx = (t_ms_fx * rate_hz) / 1000;
        if n_fx != 0 {
            let y = (EXP_Y_NUM as int) / n_fx;
            assert(t_ms_fx * rate_hz > 0) by (nonlinear_arith)
                requires
                    t_ms_fx > 0,
                    rate_hz >= 1,
            ;
            vstd::arithmetic::div_mod::lemma_div_pos_is_pos(t_ms_fx * rate_hz, 1000);
            vstd::arithmetic::div_mod::lemma_div_pos_is_pos(EXP_Y_NUM as int, n_fx);
            if y < 30 * SCALE2 {
                vstd::arithmetic::div_mod::lemma_div_pos_is_pos(y, EXP_STEPS as int);
                vstd::arithmetic::div_mod::lemma_div_nonincreasing(y, EXP_STEPS as int);
                lemma_sq_chain_range((SCALE2 as int) - y / (EXP_STEPS as int), 20);
            }
            let d = exp_decay_spec(y);
            vstd::arithmetic::div_mod::lemma_div_pos_is_pos(d, SCALE as int);
            vstd::arithmetic::div_mod::lemma_div_is_ordered(d, SCALE2 as int, SCALE as int);
        }
    }
}

/// Exec form of `exp_decay_spec`.
fn exp_decay_fx(y: i64) -> (d: i64)
    requires
        y >= 0,
    ensures
        d == exp_decay_spec(y as int),
        0 <= d <= SCALE2,
{
    if y >= 30 * SCALE2 {
        return 0;
    }
    proof {
        vstd::arithmetic::div_mod::lemma_div_pos_is_pos(y as int, EXP_STEPS as int);
        vstd::arithmetic::div_mod::lemma_div_nonincreasing(y as int, EXP_STEPS as int);
    }
    let b0: i64 = SCALE2 - y / EXP_STEPS;
    let mut b: i64 = b0;
    let mut j: u32 = 0;
    while j < 20
        invariant
            0 <= j <= 20,
            0 <= b <= SCALE2,
            0 <= b0 <= SCALE2,
            sq_chain(b as int, (20 - j) as nat) == sq_chain(b0 as int, 20),
        decreases 20 - j,
    {
        proof {
            assert(0 <= (b as int) * (b as int) <= (SCALE2 as int) * (SCALE2 as int))
                by (nonlinear_arith)
                requires
                    0 <= b <= SCALE2,
            ;
            vstd::arithmetic::div_mod::lemma_div_pos_is_pos((b as int) * (b as int), SCALE2 as int);
            vstd::arithmetic::div_mod::lemma_div_is_ordered(
                (b as int) * (b as int),
                (SCALE2 as int) * (SCALE2 as int),
                SCALE2 as int,
            );
            vstd::arithmetic::div_mod::lemma_div_multiples_vanish(SCALE2 as int, SCALE2 as int);
        }
        let bb: i128 = (b as i128) * (b as i128);
        let nb: i128 = bb / (SCALE2 as i128);
        b = nb as i64;
        j = j + 1;
    }
    b
}

/// Exec form of `coeff_spec`: the smoothing coefficient for one time
/// constant at one sample rate.
pub fn coefficient_fx(t_ms_fx: i64, rate_hz: i64) -> (c: i64)
    requires
        1 <= rate_hz <= RATE_MAX,
        t_ms_fx <= TIME_MAX,
    ensures
        c == coeff_spec(t_ms_fx as int, rate_hz as int),
        0 <= c <= SCALE,
        t_ms_fx <= 0 ==> c == SCALE,
{
    proof {
        lemma_coeff_range(t_ms_fx as int, rate_hz as int);
    }
    if t_ms_fx <= 0 {
        return SCALE;
    }
    proof {
        assert(0 < t_ms_fx * rate_hz <= TIME_MAX * RATE_MAX) by (nonlinear_arith)
            requires
                0 < t_ms_fx <= TIME_MAX,
                1 <= rate_hz <= RATE_MAX,
        ;
        vstd::arithmetic::div_mod::lemma_div_pos_is_pos(t_ms_fx as int * rate_hz as int, 1000);
        vstd::arithmetic::div_mod::lemma_div_nonincreasing(t_ms_fx as int * rate_hz as int, 1000);
    }
    let n_fx: i64 = (t_ms_fx * rate_hz) / 1000;
    if n_fx == 0 {
        return SCALE;
    }
    proof {
        vstd::arithmetic::div_mod::lemma_div_pos_is_pos(EXP_Y_NUM as int, n_fx as int);
        vstd::arithmetic::div_mod::lemma_div_nonincreasing(EXP_Y_NUM as int, n_fx as int);
    }
    let y: i64 = EXP_Y_NUM / n_fx;
    let d: i64 = exp_decay_fx(y);
    proof {
        vstd::arithmetic::div_mod::lemma_div_pos_is_pos(d as int, SCALE as int);
        vstd::arithmetic::div_mod::lemma_div_is_ordered(d as int, SCALE2 as int, SCALE as int);
    }
    SCALE - d / SCALE
}

/// Every sample of the sequence has magnitude at most `AMP_MAX`.
pub open spec fn amp_ok(s: Seq<i64>) -> bool {
    forall|i: int| 0 <= i < s.len() ==> -AMP_MAX <= #[trigger] s[i] <= AMP_MAX
}

/// One follower step: rectify the sample, pick the attack coefficient on a
/// rising target and the release coefficient on a falling one, and move the
/// level toward the target by that fraction of the distance.
pub open spec fn env_step(level: int, s: int, ac: int, rc: int) -> int {
    let target = mag(s);
    if target > level {
        level + div_t(ac * (target - level), SCALE as int)
    } else {
        level - div_t(rc * (level - target), SCALE as int)
    }
}

/// The follower level after the first `n` samples of `s`, starting from
/// `level0`.
pub open spec fn env_after(s: Seq<i64>, n: int, level0: int, ac: int, rc: int) -> int
    decreases n,
{
    if n <= 0 {
        level0
    } else {
        env_step(env_after(s, n - 1, level0, ac, rc), s[n - 1] as int, ac, rc)
    }
}

/// One follower step moves the level toward the rectified target and never
/// past it: on a rise the new level stays in `[level, target]`, on a fall in
/// `[target, level]`. In particular a non-negative level stays non-negative
/// and never exceeds the larger of itself and the target.
pub proof fn lemma_env_step_sound(level: int, s: int, ac: int, rc: int)
    requires
        0 <= ac <= SCALE,
        0 <= rc <= SCALE,
        0 <= level,
    ensures
        mag(s) > level ==> level <= env_step(level, s, ac, rc) <= mag(s),
        mag(s) <= level ==> mag(s) <= env_step(level, s, ac, rc) <= level,
{
    let target = mag(s);
    if target > level {
        let d = target - level;
        assert(0 <= ac * d && ac * d <= SCALE * d) by (nonlinear_arith)
            requires
                0 <= ac <= SCALE,
                d >= 0,
        ;
        vstd::arithmetic::div_mod::lemma_div_pos_is_pos(ac * d, SCALE as int);
        vstd::arithmetic::div_mod::lemma_div_is_ordered(ac * d, (SCALE as int) * d, SCALE as int);
        vstd::arithmetic::div_mod::lemma_div_multiples_vanish(d, SCALE as int);
    } else {
        let d = level - target;
        assert(0 <= rc * d && rc * d <= SCALE * d) by (nonlinear_arith)
            requires
                0 <= rc <= SCALE,
                d >= 0,
        ;
        vstd::arithmetic::div_mod::lemma_div_pos_is_pos(rc * d, SCALE as int);
        vstd::arithmetic::div_mod::lemma_div_is_ordered(rc * d, (SCALE as int) * d, SCALE as int);
        vstd::arithmetic::div_mod::lemma_div_multiples_vanish(d, SCALE as int);
    }
}

/// The follower level stays within `[0, bound]` whenever it starts there and
/// every sample magnitude is at most `bound`.
pub proof fn lemma_env_after_bounds(s: Seq<i64>, n: int, level0: int, ac: int, rc: int, bound: int)
    requires
        0 <= ac <= SCALE,
        0 <= rc <= SCALE,
        0 <= level0 <= bound,
        forall|i: int| 0 <= i < s.len() ==> -bound <= #[trigger] s[i] <= bound,
        n <= s.len(),
    ensures
        0 <= env_after(s, n, level0, ac, rc) <= bound,
    decreases n,
{
    if n > 0 {
        lemma_env_after_bounds(s, n - 1, level0, ac, rc, bound);
        lemma_env_step_sound(env_after(s, n - 1, level0, ac, rc), s[n - 1] as int, ac, rc);
    }
}

/// Under a constant input the level never crosses the input's magnitude:
/// it stays at or below `|c|` when it starts there, and at or above `|c|`
/// when it starts there.
pub proof fn lemma_env_constant_band(s: Seq<i64>, n: int, level0: int, ac: int, rc: int, c: i64)
    requires
        0 <= ac <= SCALE,
        0 <= rc <= SCALE,
        0 <= level0,
        forall|k: int| 0 <= k < s.len() ==> #[trigger] s[k] == c,
        0 <= n <= s.len(),
    ensures
        level0 <= mag(c as int) ==> env_after(s, n, level0, ac, rc) <= mag(c as int),
        level0 >= mag(c as int) ==> env_after(s, n, level0, ac, rc) >= mag(c as int),
    decreases n,
{
    let bound = if level0 >= mag(c as int) {
        level0
    } else {
        mag(c as int)
    };
    assert(forall|k: int| 0 <= k < s.len() ==> -bound <= #[trigger] s[k] <= bound);
    if n > 0 {
        lemma_env_constant_band(s, n - 1, level0, ac, rc, c);
        lemma_env_after_bounds(s, n - 1, level0, ac, rc, bound);
        lemma_env_step_sound(env_after(s, n - 1, level0, ac, rc), c as int, ac, rc);
        assert(s[n - 1] == c);
        assert(env_after(s, n, level0, ac, rc) == env_step(
            env_after(s, n - 1, level0, ac, rc),
            c as int,
            ac,
            rc,
        ));
    }
}

/// Law: under a constant input the follower converges monotonically toward
/// the input's magnitude and never overshoots it. With every sample equal
/// to `c`, starting at or below `|c|` the level sequence is non-decreasing
/// and stays at or below `|c|`; starting at or above `|c|` it is
/// non-increasing and stays at or above `|c|`. An all-zero input therefore
/// yields a non-increasing envelope.
pub proof fn lemma_env_constant_converges(
    s: Seq<i64>,
    n: int,
    m: int,
    level0: int,
    ac: int,
    rc: int,
    c: i64,
)
    requires
        0 <= ac <= SCALE,
        0 <= rc <= SCALE,
        0 <= level0,
        forall|k: int| 0 <= k < s.len() ==> #[trigger] s[k] == c,
        0 <= n <= m <= s.len(),
    ensures
        level0 <= mag(c as int) ==> env_after(s, n, level0, ac, rc) <= env_after(
            s,
            m,
            level0,
            ac,
            rc,
        ) <= mag(c as int),
        level0 >= mag(c as int) ==> mag(c as int) <= env_after(s, m, level0, ac, rc) <= env_after(
            s,
            n,
            level0,
            ac,
            rc,
        ),
    decreases m,
{
    let bound = if level0 >= mag(c as int) {
        level0
    } else {
        mag(c as int)
    };
    assert(forall|k: int| 0 <= k < s.len() ==> -bound <= #[trigger] s[k] <= bound);
    if m == n {
        lemma_env_constant_band(s, n, level0, ac, rc, c);
    } else {
        lemma_env_constant_converges(s, n, m - 1, level0, ac, rc, c);
        lemma_env_constant_band(s, m - 1, level0, ac, rc, c);
        lemma_env_after_bounds(s, m - 1, level0, ac, rc, bound);
        lemma_env_step_sound(env_after(s, m - 1, level0, ac, rc), c as int, ac, rc);
        assert(s[m - 1] == c);
        assert(env_after(s, m, level0, ac, rc) == env_step(
            env_after(s, m - 1, level0, ac, rc),
            c as int,
            ac,
            rc,
        ));
    }
}

/// The envelope follower's persistent state: the current level, kept across
/// blocks so smoothing continues where the previous call left off.
pub struct EnvelopeFollower {
    /// Current level in micro-units; non-negative, at most `AMP_MAX`.
    pub level: i64,
}

impl EnvelopeFollower {
    /// The state invariant: the level is a rectified, bounded amplitude.
    pub open spec fn wf(&self) -> bool {
        0 <= self.level <= AMP_MAX
    }

    /// A fresh follower starts from silence.
    pub fn new() -> (f: Self)
        ensures
            f.wf(),
            f.level == 0,
    {
        EnvelopeFollower { level: 0 }
    }

    /// Drop the state back to silence.
    pub fn reset(&mut self)
        ensures
            final(self).wf(),
            final(self).level == 0,
    {
        self.level = 0;
    }

    /// Produce the gain curve for one block and carry the level forward.
    ///
    /// The curve has the block's length; entry `i` is the level after the
    /// first `i + 1` samples, obtained by folding `env_step` with the attack
    /// and release coefficients derived from the given time constants. Every
    /// entry is non-negative and at most `AMP_MAX`.
    pub fn follow_envelope(
        &mut self,
        samples: &Vec<i64>,
        attack_ms_fx: i64,
        release_ms_fx: i64,
        sample_rate_hz: i64,
    ) -> (curve: Vec<i64>)
        requires
            old(self).wf(),
            1 <= sample_rate_hz <= RATE_MAX,
            attack_ms_fx <= TIME_MAX,
            release_ms_fx <= TIME_MAX,
            amp_ok(samples@),
        ensures
            final(self).wf(),
            curve@.len() == samples@.len(),
            forall|i: int|
                0 <= i < samples@.len() ==> #[trigger] curve@[i] == env_after(
                    samples@,
                    i + 1,
                    old(self).level as int,
                    coeff_spec(attack_ms_fx as int, sample_rate_hz as int),
                    coeff_spec(release_ms_fx as int, sample_rate_hz as int),
                ),
            forall|i: int| 0 <= i < curve@.len() ==> 0 <= #[trigger] curve@[i] <= AMP_MAX,
            final(self).level == env_after(
                samples@,
                samples@.len() as int,
                old(self).level as int,
                coeff_spec(attack_ms_fx as int, sample_rate_hz as int),
                coeff_spec(release_ms_fx as int, sample_rate_hz as int),
            ),
    {
        let ac: i64 = coefficient_fx(attack_ms_fx, sample_rate_hz);
        let rc: i64 = coefficient_fx(release_ms_fx, sample_rate_hz);
        let ghost level0: int = self.level as int;
        let mut curve: Vec<i64> = Vec::new();
        let n: usize = samples.len();
        let mut i: usize = 0;
        while i < n
            invariant
                0 <= i <= n,
                n == samples@.len(),
                amp_ok(samples@),
                0 <= ac <= SCALE,
                0 <= rc <= SCALE,
                ac == coeff_spec(attack_ms_fx as int, sample_rate_hz as int),
                rc == coeff_spec(release_ms_fx as int, sample_rate_hz as int),
                0 <= level0 <= AMP_MAX,
                0 <= self.level <= AMP_MAX,
                self.level == env_after(samples@, i as int, level0, ac as int, rc as int),
                curve@.len() == i,
                forall|k: int|
                    0 <= k < i ==> #[trigger] curve@[k] == env_after(
                        samples@,
                        k + 1,
                        level0,
                        ac as int,
                        rc as int,
                    ),
                forall|k: int| 0 <= k < i ==> 0 <= #[trigger] curve@[k] <= AMP_MAX,
            decreases n - i,
        {
            let s: i64 = samples[i];
            let target: i64 = if s >= 0 {
                s
            } else {
                -s
            };
            proof {
                lemma_env_step_sound(self.level as int, s as int, ac as int, rc as int);
            }
            if target > self.level {
                proof {
                    assert(0 <= ac * (target - self.level) <= SCALE * AMP_MAX)
                        by (nonlinear_arith)
                        requires
                            0 <= ac <= SCALE,
                            0 <= target - self.level <= AMP_MAX,
                    ;
                }
                self.level = self.level + (ac * (target - self.level)) / SCALE;
            } else {
                proof {
                    assert(0 <= rc * (self.level - target) <= SCALE * AMP_MAX)
                        by (nonlinear_arith)
                        requires
                            0 <= rc <= SCALE,
                            0 <= self.level - target <= AMP_MAX,
                    ;
                }
                self.level = self.level - (rc * (self.level - target)) / SCALE;
            }
            curve.push(self.level);
            i = i + 1;
        }
        curve
    }
}

/// Why applying a gain curve can be refused.
#[derive(Clone, Copy, Debug, PartialEq, Eq, Structural)]
pub enum GainError {
    /// Signal and curve do not have the same length.
    LengthMismatch,
}

/// Multiply a signal element-wise by a gain curve, in place.
///
/// Succeeds exactly when the two sequences have the same length, replacing
/// `signal[i]` by `signal[i] * curve[i]` (in micro-units); a mismatch leaves
/// the signal untouched and reports the error, never truncating or padding.
pub fn apply_gain(signal: &mut Vec<i64>, curve: &Vec<i64>) -> (r: Result<(), GainError>)
    requires
        amp_ok(old(signal)@),
        amp_ok(curve@),
    ensures
        r is Ok <==> old(signal)@.len() == curve@.len(),
        r is Err ==> final(signal)@ == old(signal)@,
        r is Ok ==> final(signal)@.len() == old(signal)@.len(),
        r is Ok ==> forall|i: int|
            0 <= i < old(signal)@.len() ==> #[trigger] final(signal)@[i] == crate::fx::mul_fx_spec(
                old(signal)@[i] as int,
                curve@[i] as int,
            ),
    {
    if signal.len() != curve.len() {
        return Err(GainError::LengthMismatch);
    }
    let n: usize = signal.len();
    let mut i: usize = 0;
    while i < n
        invariant
            0 <= i <= n,
            n == old(signal)@.len(),
            signal@.len() == n,
            curve@.len() == n,
            amp_ok(old(signal)@),
            amp_ok(curve@),
            forall|k: int| i <= k < n ==> #[trigger] signal@[k] == old(signal)@[k],
            forall|k: int|
                0 <= k < i ==> #[trigger] signal@[k] == crate::fx::mul_fx_spec(
                    old(signal)@[k] as int,
                    curve@[k] as int,
                ),
        decreases n - i,
    {
        let s: i64 = signal[i];
        let g: i64 = curve[i];
        proof {
            assert(-(AMP_MAX * AMP_MAX) <= (s as int) * (g as int) <= AMP_MAX * AMP_MAX)
                by (nonlinear_arith)
                requires
                    -AMP_MAX <= s <= AMP_MAX,
                    -AMP_MAX <= g <= AMP_MAX,
            ;
        }
        let v: i64 = (s * g) / SCALE;
        signal.set(i, v);
        i = i + 1;
    }
    Ok(())
}

} // verus!
