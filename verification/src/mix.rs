//! Channel handling at the edges of the pipeline: averaging input channels
//! into a mono signal, and deciding where the finished signal goes.

use vstd::prelude::*;
use crate::envelope::amp_ok;
use crate::fx::{AMP_MAX, CHANNELS_MAX, div_t, mag};

verus! {

/// A well-formed block: every channel has the first channel's length and
/// carries bounded samples.
pub open spec fn channels_ok(chans: Seq<Vec<i64>>) -> bool {
    &&& forall|c: int| 0 <= c < chans.len() ==> (#[trigger] chans[c])@.len() == chans[0]@.len()
    &&& forall|c: int| 0 <= c < chans.len() ==> amp_ok((#[trigger] chans[c])@)
}

/// Sum of sample `i` over the first `c` channels.
pub open spec fn col_sum(chans: Seq<Vec<i64>>, i: int, c: int) -> int
    decreases c,
{
    if c <= 0 {
        0
    } else {
        col_sum(chans, i, c - 1) + chans[c - 1]@[i]
    }
}

/// The mono mix at index `i`: the arithmetic mean over all channels, with a
/// zero channel count treated as one so no division by zero can arise.
pub open spec fn mono_spec(chans: Seq<Vec<i64>>, i: int) -> int {
    let n = chans.len() as int;
    div_t(col_sum(chans, i, n), if n == 0 { 1int } else { n })
}

/// A column sum over bounded samples is bounded by `AMP_MAX` per channel.
pub proof fn lemma_col_sum_bound(chans: Seq<Vec<i64>>, i: int, c: int)
    requires
        channels_ok(chans),
        0 <= c <= chans.len(),
        chans.len() > 0,
        0 <= i < chans[0]@.len(),
    ensures
        mag(col_sum(chans, i, c)) <= c * AMP_MAX,
    decreases c,
{
    if c > 0 {
        lemma_col_sum_bound(chans, i, c - 1);
    }
}

/// The mean of bounded samples is itself bounded: `|mono_spec| <= AMP_MAX`.
pub proof fn lemma_mono_bound(chans: Seq<Vec<i64>>, i: int)
    requires
        channels_ok(chans),
        chans.len() > 0,
        0 <= i < chans[0]@.len(),
    ensures
        -AMP_MAX <= mono_spec(chans, i) <= AMP_MAX,
{
    let n = chans.len() as int;
    lemma_col_sum_bound(chans, i, n);
    crate::fx::lemma_div_t_mag(col_sum(chans, i, n), n);
    vstd::arithmetic::div_mod::lemma_div_is_ordered(
        mag(col_sum(chans, i, n)),
        (AMP_MAX as int) * n,
        n,
    );
    vstd::arithmetic::div_mod::lemma_div_multiples_vanish(AMP_MAX as int, n);
}

/// Average all input channels into one mono signal.
///
/// The output has the channels' shared length (empty when there are no
/// channels); entry `i` is the arithmetic mean of sample `i` across the
/// channels, so the output is bounded like its inputs.
pub fn reduce_to_mono(channels: &Vec<Vec<i64>>) -> (mono: Vec<i64>)
    requires
        channels@.len() <= CHANNELS_MAX,
        channels_ok(channels@),
    ensures
        channels@.len() == 0 ==> mono@.len() == 0,
        channels@.len() > 0 ==> mono@.len() == channels@[0]@.len(),
        forall|i: int| 0 <= i < mono@.len() ==> #[trigger] mono@[i] == mono_spec(channels@, i),
        amp_ok(mono@),
{
    let nch: usize = channels.len();
    if nch == 0 {
        let empty: Vec<i64> = Vec::new();
        return empty;
    }
    let len: usize = channels[0].len();
    let divisor: i64 = nch as i64;
    let mut mono: Vec<i64> = Vec::new();
    let mut i: usize = 0;
    while i < len
        invariant
            0 <= i <= len,
            1 <= nch <= CHANNELS_MAX,
            nch == channels@.len(),
            divisor == nch,
            len == channels@[0]@.len(),
            channels_ok(channels@),
            mono@.len() == i,
            forall|k: int| 0 <= k < i ==> #[trigger] mono@[k] == mono_spec(channels@, k),
            forall|k: int| 0 <= k < i ==> -AMP_MAX <= #[trigger] mono@[k] <= AMP_MAX,
        decreases len - i,
    {
        let mut sum: i64 = 0;
        let mut c: usize = 0;
        while c < nch
            invariant
                0 <= c <= nch,
                1 <= nch <= CHANNELS_MAX,
                nch == channels@.len(),
                i < len,
                len == channels@[0]@.len(),
                channels_ok(channels@),
                sum == col_sum(channels@, i as int, c as int),
                mag(sum as int) <= c * AMP_MAX,
            decreases nch - c,
        {
            let s: i64 = channels[c][i];
            sum = sum + s;
            c = c + 1;
        }
        proof {
            lemma_mono_bound(channels@, i as int);
            crate::fx::lemma_div_t_mag(sum as int, divisor as int);
        }
        let m: i64 = sum / divisor;
        mono.push(m);
        i = i + 1;
    }
    mono
}

/// Where the compositor sends the finished signal.
#[derive(Clone, Copy, Debug, PartialEq, Eq, Structural)]
pub enum Route {
    /// Selector 0: add the signal into every output channel.
    MixIntoAll,
    /// A 1-based selector within the channel count: replace this 0-based
    /// channel and leave the others untouched.
    Replace { index: usize },
    /// Any other selector is out of range and changes nothing.
    Ignore,
}

/// The routing policy: 0 mixes into every channel, a 1-based in-range
/// selector replaces that one channel, anything else is ignored.
pub open spec fn route_spec(selector: i64, n_channels: int) -> Route {
    if selector == 0 {
        Route::MixIntoAll
    } else if 1 <= selector && selector <= n_channels {
        Route::Replace { index: (selector - 1) as usize }
    } else {
        Route::Ignore
    }
}

/// Decide the route for a channel selector over `n_channels` channels.
pub fn route_for(selector: i64, n_channels: usize) -> (r: Route)
    ensures
        r == route_spec(selector, n_channels as int),
{
    if selector == 0 {
        Route::MixIntoAll
    } else if selector >= 1 {
        let idx: u64 = (selector - 1) as u64;
        if idx < n_channels as u64 {
            Route::Replace { index: idx as usize }
        } else {
            Route::Ignore
        }
    } else {
        Route::Ignore
    }
}

} // verus!
