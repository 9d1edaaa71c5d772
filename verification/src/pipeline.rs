//! The full per-block pipeline: average the input channels to mono, follow
//! the envelope, synthesize a band-limited sawtooth whose phase accumulates
//! across blocks, scale it by the envelope curve and the post gain, and
//! route the result to the output channels.
//!
//! The phase is carried in the instance and advanced by `2 pi * frequency /
//! sample_rate` per sample, wrapped to one turn, so repeated blocks at a
//! fixed frequency stay phase-continuous instead of restarting from zero
//! each block.

use vstd::prelude::*;
use crate::envelope::{EnvelopeFollower, coeff_spec, env_after};
use crate::fx::{
    AMP_MAX, BLOCK_MAX, CHANNELS_MAX, FREQ_MAX, GAIN_FX_MAX, RATE_MAX, SCALE, TWO_PI_FX, mag,
    mul_fx_spec,
};
use crate::mix::{Route, channels_ok, col_sum, mono_spec, reduce_to_mono, route_for, route_spec};
use crate::wave::{SAW_UNIT, saw_spec, sawtooth};

verus! {

/// Attack and release time constant of the envelope follower, in
/// micro-milliseconds (10 ms).
pub const ENV_TIME_FX: i64 = 10_000_000;

/// Harmonic count of the generated sawtooth.
pub const OSC_HARMONICS: u32 = 3;

/// Largest magnitude one tone sample can reach: three harmonics at full
/// curve and full post gain.
pub const TONE_MAX: i64 = 32_000_000_000;

/// Phase advance per sample: `2 pi * pitch / rate`, in micro-radians.
pub open spec fn dphase_spec(pitch_fx: int, rate_hz: int) -> int {
    (TWO_PI_FX * pitch_fx) / (rate_hz * (SCALE as int))
}

/// Accumulated oscillator phase at sample `i`, wrapped to one turn at every
/// step.
pub open spec fn phase_at_spec(phase0: int, dp: int, i: int) -> int
    decreases i,
{
    if i <= 0 {
        phase0
    } else {
        (phase_at_spec(phase0, dp, i - 1) + dp) % (TWO_PI_FX as int)
    }
}

/// The mono mix of a block as a sequence.
pub open spec fn mono_seq(chans: Seq<Vec<i64>>) -> Seq<i64> {
    Seq::new(
        if chans.len() == 0 {
            0nat
        } else {
            chans[0]@.len()
        },
        |i: int| mono_spec(chans, i) as i64,
    )
}

/// The synthesized tone at sample `i` of a block: the sawtooth at the
/// accumulated phase, scaled by the envelope curve value and the post gain.
pub open spec fn tone_spec(
    chans: Seq<Vec<i64>>,
    level0: int,
    phase0: int,
    rate: int,
    pitch: int,
    post: int,
    i: int,
) -> int {
    let coeff = coeff_spec(ENV_TIME_FX as int, rate);
    let curve_i = env_after(mono_seq(chans), i + 1, level0, coeff, coeff);
    let ph = phase_at_spec(phase0, dphase_spec(pitch, rate), i);
    mul_fx_spec(mul_fx_spec(saw_spec(ph, OSC_HARMONICS as int), curve_i), post)
}

/// One output sample of `process`: the tone is mixed into every channel,
/// replaces the selected channel, or is dropped, as the routing selector
/// says.
pub open spec fn process_out_spec(
    chans: Seq<Vec<i64>>,
    level0: int,
    phase0: int,
    rate: int,
    pitch: int,
    post: int,
    selector: i64,
    c: int,
    i: int,
) -> int {
    let t = tone_spec(chans, level0, phase0, rate, pitch, post, i);
    match route_spec(selector, chans.len() as int) {
        Route::MixIntoAll => chans[c]@[i] + t,
        Route::Replace { index } => if c == index {
            t
        } else {
            chans[c]@[i] as int
        },
        Route::Ignore => chans[c]@[i] as int,
    }
}

/// The pipeline instance: sample rate, envelope state and oscillator phase,
/// all carried across blocks.
pub struct Pipeline {
    /// Current sample rate in Hz.
    pub sample_rate_hz: i64,
    /// The envelope follower and its persistent level.
    pub follower: EnvelopeFollower,
    /// Accumulated oscillator phase, wrapped to one turn, in micro-radians.
    pub phase_fx: i64,
}

impl Pipeline {
    /// The instance invariant: a positive bounded rate, a well-formed
    /// follower, and a phase inside one turn.
    pub open spec fn wf(&self) -> bool {
        &&& 1 <= self.sample_rate_hz <= RATE_MAX
        &&& self.follower.wf()
        &&& 0 <= self.phase_fx < TWO_PI_FX
    }

    /// A fresh pipeline at the conventional default rate, silent and at
    /// phase zero.
    pub fn new() -> (p: Self)
        ensures
            p.wf(),
            p.sample_rate_hz == 44100,
            p.follower.level == 0,
            p.phase_fx == 0,
    {
        Pipeline { sample_rate_hz: 44100, follower: EnvelopeFollower::new(), phase_fx: 0 }
    }

    /// Adopt the host's sample rate; smoothing state is kept.
    pub fn initialize(&mut self, sample_rate_hz: i64)
        requires
            old(self).wf(),
            1 <= sample_rate_hz <= RATE_MAX,
        ensures
            final(self).wf(),
            final(self).sample_rate_hz == sample_rate_hz,
            final(self).follower == old(self).follower,
            final(self).phase_fx == old(self).phase_fx,
    {
        self.sample_rate_hz = sample_rate_hz;
    }

    /// Drop envelope and phase back to silence; the rate is kept.
    pub fn reset(&mut self)
        requires
            old(self).wf(),
        ensures
            final(self).wf(),
            final(self).sample_rate_hz == old(self).sample_rate_hz,
            final(self).follower.level == 0,
            final(self).phase_fx == 0,
    {
        self.follower.reset();
        self.phase_fx = 0;
    }

    /// Run one block through the whole pipeline, in place.
    ///
    /// Every output sample equals `process_out_spec` over the old block and
    /// the old state; the follower level and the oscillator phase advance
    /// by the block's length.
    pub fn process(
        &mut self,
        channels: &mut Vec<Vec<i64>>,
        pitch_fx: i64,
        post_gain_fx: i64,
        out_selector: i64,
    )
        requires
            old(self).wf(),
            old(channels)@.len() <= CHANNELS_MAX,
            channels_ok(old(channels)@),
            old(channels)@.len() > 0 ==> old(channels)@[0]@.len() <= BLOCK_MAX,
            0 < pitch_fx <= FREQ_MAX,
            0 <= post_gain_fx <= GAIN_FX_MAX,
        ensures
            final(self).wf(),
            final(self).sample_rate_hz == old(self).sample_rate_hz,
            final(channels)@.len() == old(channels)@.len(),
            forall|c: int|
                0 <= c < old(channels)@.len() ==> (#[trigger] final(channels)@[c])@.len() == old(
                    channels,
                )@[c]@.len(),
            forall|c: int, i: int|
                0 <= c < old(channels)@.len() && 0 <= i < old(channels)@[c]@.len()
                    ==> #[trigger] final(channels)@[c]@[i] == process_out_spec(
                    old(channels)@,
                    old(self).follower.level as int,
                    old(self).phase_fx as int,
                    old(self).sample_rate_hz as int,
                    pitch_fx as int,
                    post_gain_fx as int,
                    out_selector,
                    c,
                    i,
                ),
            final(self).follower.level == env_after(
                mono_seq(old(channels)@),
                mono_seq(old(channels)@).len() as int,
                old(self).follower.level as int,
                coeff_spec(ENV_TIME_FX as int, old(self).sample_rate_hz as int),
                coeff_spec(ENV_TIME_FX as int, old(self).sample_rate_hz as int),
            ),
            final(self).phase_fx == phase_at_spec(
                old(self).phase_fx as int,
                dphase_spec(pitch_fx as int, old(self).sample_rate_hz as int),
                mono_seq(old(channels)@).len() as int,
            ),
    {
        let rate: i64 = self.sample_rate_hz;
        let nch: usize = channels.len();
        let len: usize = if nch == 0 {
            0
        } else {
            channels[0].len()
        };
        let mono: Vec<i64> = reduce_to_mono(channels);
        proof {
            assert(mono@ =~= mono_seq(channels@));
        }
        let curve: Vec<i64> = self.follower.follow_envelope(&mono, ENV_TIME_FX, ENV_TIME_FX, rate);
        proof {
            assert(0 <= (TWO_PI_FX as int) * (pitch_fx as int) <= 200_000_000_000_000_000int)
                by (nonlinear_arith)
                requires
                    0 < pitch_fx <= 20_000_000_000,
                    TWO_PI_FX == 6_283_186,
            ;
            assert(0 < (rate as int) * (SCALE as int) <= 10_000_000_000_000int)
                by (nonlinear_arith)
                requires
                    1 <= rate <= 10_000_000,
                    SCALE == 1_000_000,
            ;
            vstd::arithmetic::div_mod::lemma_div_pos_is_pos(
                (TWO_PI_FX as int) * (pitch_fx as int),
                (rate as int) * (SCALE as int),
            );
            vstd::arithmetic::div_mod::lemma_div_nonincreasing(
                (TWO_PI_FX as int) * (pitch_fx as int),
                (rate as int) * (SCALE as int),
            );
        }
        let dp: i64 = (TWO_PI_FX * pitch_fx) / (rate * SCALE);
        let ghost chans0: Seq<Vec<i64>> = old(channels)@;
        let ghost level0: int = old(self).follower.level as int;
        let ghost phase0: int = old(self).phase_fx as int;
        let mut tone: Vec<i64> = Vec::new();
        let mut phase: i64 = self.phase_fx;
        let mut i: usize = 0;
        while i < len
            invariant
                0 <= i <= len,
                len == mono_seq(chans0).len(),
                curve@.len() == len,
                0 <= phase < TWO_PI_FX,
                0 <= dp <= 200_000_000_000_000_000,
                dp == dphase_spec(pitch_fx as int, rate as int),
                phase == phase_at_spec(phase0, dp as int, i as int),
                0 <= post_gain_fx <= GAIN_FX_MAX,
                forall|k: int|
                    0 <= k < len ==> #[trigger] curve@[k] == env_after(
                        mono_seq(chans0),
                        k + 1,
                        level0,
                        coeff_spec(ENV_TIME_FX as int, rate as int),
                        coeff_spec(ENV_TIME_FX as int, rate as int),
                    ),
                forall|k: int| 0 <= k < len ==> 0 <= #[trigger] curve@[k] <= AMP_MAX,
                tone@.len() == i,
                forall|k: int|
                    0 <= k < i ==> #[trigger] tone@[k] == tone_spec(
                        chans0,
                        level0,
                        phase0,
                        rate as int,
                        pitch_fx as int,
                        post_gain_fx as int,
                        k,
                    ),
                forall|k: int| 0 <= k < i ==> -TONE_MAX <= #[trigger] tone@[k] <= TONE_MAX,
            decreases len - i,
        {
            let s: i64 = sawtooth(phase, OSC_HARMONICS);
            let g: i64 = curve[i];
            proof {
                assert(-(2_000_000_000_000_000int) <= (s as int) * (g as int)
                    <= 2_000_000_000_000_000int) by (nonlinear_arith)
                    requires
                        mag(s as int) <= 3 * SAW_UNIT,
                        SAW_UNIT == 636_620,
                        0 <= g <= 1_000_000_000,
                ;
                crate::fx::lemma_div_t_mag((s as int) * (g as int), SCALE as int);
                vstd::arithmetic::div_mod::lemma_div_is_ordered(
                    mag((s as int) * (g as int)),
                    2_000_000_000_000_000int,
                    SCALE as int,
                );
            }
            let v1: i64 = crate::fx::mul_fx(s, g);
            proof {
                assert(-(32_000_000_000_000_000int) <= (v1 as int) * (post_gain_fx as int)
                    <= 32_000_000_000_000_000int) by (nonlinear_arith)
                    requires
                        mag(v1 as int) <= 2_000_000_000,
                        0 <= post_gain_fx <= 16_000_000,
                ;
                crate::fx::lemma_div_t_mag((v1 as int) * (post_gain_fx as int), SCALE as int);
                vstd::arithmetic::div_mod::lemma_div_is_ordered(
                    mag((v1 as int) * (post_gain_fx as int)),
                    32_000_000_000_000_000int,
                    SCALE as int,
                );
            }
            let v2: i64 = crate::fx::mul_fx(v1, post_gain_fx);
            tone.push(v2);
            proof {
                vstd::arithmetic::div_mod::lemma_mod_bound(
                    (phase + dp) as int,
                    TWO_PI_FX as int,
                );
            }
            phase = (phase + dp) % TWO_PI_FX;
            i = i + 1;
        }
        self.phase_fx = phase;
        let route: Route = route_for(out_selector, nch);
        let mut out: Vec<Vec<i64>> = Vec::new();
        let mut c: usize = 0;
        while c < nch
            invariant
                0 <= c <= nch,
                nch == channels@.len(),
                channels@ == chans0,
                channels_ok(chans0),
                nch > 0 ==> len == chans0[0]@.len(),
                nch == 0 ==> len == 0,
                tone@.len() == len,
                route == route_spec(out_selector, nch as int),
                forall|k: int|
                    0 <= k < len ==> #[trigger] tone@[k] == tone_spec(
                        chans0,
                        level0,
                        phase0,
                        rate as int,
                        pitch_fx as int,
                        post_gain_fx as int,
                        k,
                    ),
                forall|k: int| 0 <= k < len ==> -TONE_MAX <= #[trigger] tone@[k] <= TONE_MAX,
                out@.len() == c,
                forall|cc: int| 0 <= cc < c ==> (#[trigger] out@[cc])@.len() == len,
                forall|cc: int, k: int|
                    0 <= cc < c && 0 <= k < len ==> #[trigger] out@[cc]@[k] == process_out_spec(
                        chans0,
                        level0,
                        phase0,
                        rate as int,
                        pitch_fx as int,
                        post_gain_fx as int,
                        out_selector,
                        cc,
                        k,
                    ),
            decreases nch - c,
        {
            let mut ch: Vec<i64> = Vec::new();
            let mut k: usize = 0;
            while k < len
                invariant
                    0 <= k <= len,
                    c < nch,
                    nch == channels@.len(),
                    channels@ == chans0,
                    channels_ok(chans0),
                    nch > 0 ==> len == chans0[0]@.len(),
                    tone@.len() == len,
                    route == route_spec(out_selector, nch as int),
                    forall|j: int|
                        0 <= j < len ==> #[trigger] tone@[j] == tone_spec(
                            chans0,
                            level0,
                            phase0,
                            rate as int,
                            pitch_fx as int,
                            post_gain_fx as int,
                            j,
                        ),
                    forall|j: int| 0 <= j < len ==> -TONE_MAX <= #[trigger] tone@[j] <= TONE_MAX,
                    ch@.len() == k,
                    forall|j: int|
                        0 <= j < k ==> #[trigger] ch@[j] == process_out_spec(
                            chans0,
                            level0,
                            phase0,
                            rate as int,
                            pitch_fx as int,
                            post_gain_fx as int,
                            out_selector,
                            c as int,
                            j,
                        ),
                decreases len - k,
            {
                let v: i64 = match route {
                    Route::MixIntoAll => channels[c][k] + tone[k],
                    Route::Replace { index } => if c == index {
                        tone[k]
                    } else {
                        channels[c][k]
                    },
                    Route::Ignore => channels[c][k],
                };
                ch.push(v);
                k = k + 1;
            }
            out.push(ch);
            c = c + 1;
        }
        *channels = out;
    }
}

/// The column sum of an all-zero block is zero.
pub proof fn lemma_col_sum_zero(chans: Seq<Vec<i64>>, i: int, c: int)
    requires
        channels_ok(chans),
        forall|cc: int, k: int|
            0 <= cc < chans.len() && 0 <= k < chans[cc]@.len() ==> #[trigger] chans[cc]@[k] == 0,
        0 <= c <= chans.len(),
        0 <= i,
        chans.len() > 0 ==> i < chans[0]@.len(),
    ensures
        col_sum(chans, i, c) == 0,
    decreases c,
{
    if c > 0 {
        lemma_col_sum_zero(chans, i, c - 1);
        assert(chans[c - 1]@.len() == chans[0]@.len());
        assert(chans[c - 1]@[i] == 0);
    }
}

/// The envelope of an all-zero signal stays at zero from a zero start.
pub proof fn lemma_env_after_zero(s: Seq<i64>, n: int, ac: int, rc: int)
    requires
        forall|k: int| 0 <= k < s.len() ==> #[trigger] s[k] == 0,
        n <= s.len(),
    ensures
        env_after(s, n, 0, ac, rc) == 0,
    decreases n,
{
    if n > 0 {
        lemma_env_after_zero(s, n - 1, ac, rc);
        vstd::arithmetic::div_mod::lemma_div_of0(SCALE as int);
    }
}

/// Law: a fully silent block passes through the whole pipeline unchanged.
///
/// With every input sample zero and the follower starting at level zero, the
/// envelope curve is exactly zero everywhere, so every tone sample is zero
/// and every output sample equals its input sample, whatever the phase,
/// rate, pitch, post gain and routing selector.
pub proof fn lemma_silent_block_unchanged(
    chans: Seq<Vec<i64>>,
    phase0: int,
    rate: int,
    pitch: int,
    post: int,
    selector: i64,
    c: int,
    i: int,
)
    requires
        channels_ok(chans),
        forall|cc: int, k: int|
            0 <= cc < chans.len() && 0 <= k < chans[cc]@.len() ==> #[trigger] chans[cc]@[k] == 0,
        0 <= c < chans.len(),
        0 <= i < chans[c]@.len(),
    ensures
        tone_spec(chans, 0, phase0, rate, pitch, post, i) == 0,
        process_out_spec(chans, 0, phase0, rate, pitch, post, selector, c, i) == chans[c]@[i],
{
    let ms = mono_seq(chans);
    assert forall|k: int| 0 <= k < ms.len() implies #[trigger] ms[k] == 0 by {
        lemma_col_sum_zero(chans, k, chans.len() as int);
        vstd::arithmetic::div_mod::lemma_div_of0(chans.len() as int);
    }
    let coeff = coeff_spec(ENV_TIME_FX as int, rate);
    lemma_env_after_zero(ms, i + 1, coeff, coeff);
    let ph = phase_at_spec(phase0, dphase_spec(pitch, rate), i);
    vstd::arithmetic::div_mod::lemma_div_of0(SCALE as int);
    assert(saw_spec(ph, OSC_HARMONICS as int) * 0 == 0);
    assert(mul_fx_spec(saw_spec(ph, OSC_HARMONICS as int), 0) == 0);
    assert(mul_fx_spec(0, post) == 0);
}

} // verus!
