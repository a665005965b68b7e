//! The spectrum analyzer: maps transform magnitudes onto display bars
//! with bass weighting and exponential smoothing.
//!
//! One update consumes the oldest full transform window from the shared
//! sample window and folds the magnitudes of that window's transform into
//! the bar array.  The transform itself (a discrete Fourier transform over
//! floating-point samples) is carried out by the caller, which hands the
//! lower-half magnitudes in as fixed-point integers; everything from there
//! on — bin selection, bass boost, smoothing, the underrun policy — is
//! verified here.

use vstd::prelude::*;

use vstd::arithmetic::div_mod::lemma_div_is_ordered;
use vstd::arithmetic::div_mod::lemma_div_by_multiple;

use crate::NUM_BINS;
use crate::SCALE;
use crate::WINDOW_SIZE;
use crate::tee::SampleWindow;

verus! {

/// Most display bars an analyzer may be configured with.
pub const MAX_BARS: usize = 8192;

/// Largest accepted bass-boost multiplier, in `SCALE` units (16.0).
pub const MAX_BOOST: u64 = 16384;

/// Largest accepted transform magnitude, in `SCALE` units.
pub const MAG_LIMIT: u64 = 0x100_0000;

/// Largest value the per-bar weight `SCALE * n + boost * (n - i)` can
/// take, with the bar count `n` at its `MAX_BARS` (8192) limit.
pub const WEIGHT_LIMIT: u64 = (SCALE + MAX_BOOST) * 8192;

/// Largest value a boosted amplitude — and hence a bar — can take.
pub const AMP_LIMIT: u64 = MAG_LIMIT * WEIGHT_LIMIT;

/// The bass-emphasis weight of bar `i` out of `n`: the fixed-point form of
/// `1 + bass_boost * (1 - i / n)`, scaled by `SCALE * n` so that no
/// rounding happens before smoothing.
pub open spec fn boost_weight(bass_boost: int, i: int, n: int) -> int {
    (SCALE as int) * n + bass_boost * (n - i)
}

/// The amplitude shown for raw magnitude `mag` at bar `i` of `n`:
/// the magnitude under the bass-emphasis weight of that bar.
pub open spec fn boosted_amp(mag: int, bass_boost: int, i: int, n: int) -> int {
    mag * boost_weight(bass_boost, i, n)
}

/// One step of the exponential moving average: the fixed-point form of
/// `prev * smoothing + amp * (1 - smoothing)`.
pub open spec fn smoothed(prev: int, amp: int, smoothing: int) -> int {
    (prev * smoothing + amp * ((SCALE as int) - smoothing)) / (SCALE as int)
}

/// Converts the most recent window of raw samples into a smoothed,
/// bass-weighted bar display, refreshed on demand.
pub struct SpectrumAnalyzer {
    bars: Vec<u64>,
    num_bars: usize,
    smoothing: u64,
    bass_boost: u64,
    freq_map: Vec<usize>,
}

impl SpectrumAnalyzer {
    /// The current bar magnitudes, low frequency first.
    pub closed spec fn bars_view(self) -> Seq<u64> {
        self.bars@
    }

    /// The configured number of display bars.
    pub closed spec fn num_bars_spec(self) -> usize {
        self.num_bars
    }

    /// The configured smoothing factor, in `SCALE` units.
    pub closed spec fn smoothing_spec(self) -> u64 {
        self.smoothing
    }

    /// The configured bass-boost multiplier, in `SCALE` units.
    pub closed spec fn bass_boost_spec(self) -> u64 {
        self.bass_boost
    }

    /// The magnitude bin each bar reads, low bars toward low bins.
    pub closed spec fn freq_map_view(self) -> Seq<usize> {
        self.freq_map@
    }

    /// Well-formedness: the shapes and bounds that construction
    /// establishes and every update preserves.
    pub open spec fn wf(self) -> bool {
        &&& self.bars_view().len() == self.num_bars_spec()
        &&& self.freq_map_view().len() == self.num_bars_spec()
        &&& self.num_bars_spec() <= MAX_BARS
        &&& self.smoothing_spec() <= SCALE
        &&& self.bass_boost_spec() <= MAX_BOOST
        &&& forall|i: int|
            0 <= i < self.num_bars_spec() ==> (#[trigger] self.freq_map_view()[i]) < NUM_BINS
        &&& forall|i: int|
            0 <= i < self.num_bars_spec() ==> (#[trigger] self.bars_view()[i]) <= AMP_LIMIT
    }

    /// What bar `i` holds after folding in `spectrum`: the smoothed blend
    /// of its previous value with the boosted magnitude of its bin.
    pub open spec fn updated_bar(self, i: int, spectrum: Seq<u64>) -> int {
        smoothed(
            self.bars_view()[i] as int,
            boosted_amp(
                spectrum[self.freq_map_view()[i] as int] as int,
                self.bass_boost_spec() as int,
                i,
                self.num_bars_spec() as int,
            ),
            self.smoothing_spec() as int,
        )
    }

    /// A fresh analyzer: all bars zero, configuration fixed for its
    /// lifetime.  `freq_map` assigns one magnitude bin to each bar;
    /// entries past the last bin are clamped to it.
    pub fn new(num_bars: usize, smoothing: u64, bass_boost: u64, freq_map: Vec<usize>) -> (r:
        SpectrumAnalyzer)
        requires
            num_bars <= MAX_BARS,
            smoothing <= SCALE,
            bass_boost <= MAX_BOOST,
            freq_map@.len() == num_bars,
        ensures
            r.wf(),
            r.num_bars_spec() == num_bars,
            r.smoothing_spec() == smoothing,
            r.bass_boost_spec() == bass_boost,
            forall|i: int| 0 <= i < num_bars ==> (#[trigger] r.bars_view()[i]) == 0,
            forall|i: int|
                0 <= i < num_bars ==> (#[trigger] r.freq_map_view()[i]) == (if freq_map@[i]
                    < NUM_BINS {
                    freq_map@[i]
                } else {
                    (NUM_BINS - 1) as usize
                }),
    {
        let mut bars: Vec<u64> = Vec::new();
        let mut i: usize = 0;
        while i < num_bars
            invariant
                i <= num_bars,
                bars@.len() == i,
                forall|j: int| 0 <= j < i ==> (#[trigger] bars@[j]) == 0,
            decreases num_bars - i,
        {
            bars.push(0);
            i = i + 1;
        }
        let mut clamped: Vec<usize> = Vec::new();
        let mut k: usize = 0;
        while k < num_bars
            invariant
                k <= num_bars,
                freq_map@.len() == num_bars,
                clamped@.len() == k,
                forall|j: int|
                    0 <= j < k ==> (#[trigger] clamped@[j]) == (if freq_map@[j] < NUM_BINS {
                        freq_map@[j]
                    } else {
                        (NUM_BINS - 1) as usize
                    }),
            decreases num_bars - k,
        {
            let bin: usize = freq_map[k];
            if bin < NUM_BINS {
                clamped.push(bin);
            } else {
                clamped.push(NUM_BINS - 1);
            }
            k = k + 1;
        }
        SpectrumAnalyzer { bars, num_bars, smoothing, bass_boost, freq_map: clamped }
    }

    /// Read access to the bar array for the renderer.
    pub fn bars(&self) -> (r: &Vec<u64>)
        ensures
            r@ == self.bars_view(),
    {
        &self.bars
    }

    /// The configured number of display bars.
    pub fn num_bars(&self) -> (r: usize)
        ensures
            r == self.num_bars_spec(),
    {
        self.num_bars
    }

    /// One refresh: if a full transform window is buffered, consume it
    /// and fold `spectrum` — the lower-half transform magnitudes the
    /// caller computed from exactly that window — into the bars.  With
    /// fewer samples buffered this is a no-op: bars and window keep their
    /// previous state, which is the startup/underrun policy, not an error.
    pub fn update(&mut self, window: &mut SampleWindow, spectrum: &Vec<u64>)
        requires
            old(self).wf(),
            spectrum@.len() == NUM_BINS,
            forall|i: int| 0 <= i < spectrum@.len() ==> (#[trigger] spectrum@[i]) <= MAG_LIMIT,
        ensures
            final(self).wf(),
            final(self).num_bars_spec() == old(self).num_bars_spec(),
            final(self).smoothing_spec() == old(self).smoothing_spec(),
            final(self).bass_boost_spec() == old(self).bass_boost_spec(),
            final(self).freq_map_view() == old(self).freq_map_view(),
            old(window)@.len() < WINDOW_SIZE ==> *final(self) == *old(self) && final(window)@
                == old(window)@,
            old(window)@.len() >= WINDOW_SIZE ==> {
                &&& final(window)@ == old(window)@.skip(WINDOW_SIZE as int)
                &&& forall|i: int|
                    0 <= i < old(self).num_bars_spec() ==> (
                    #[trigger] final(self).bars_view()[i]) as int == old(self).updated_bar(
                        i,
                        spectrum@,
                    )
            },
    {
        if window.len() < WINDOW_SIZE {
            return ;
        }
        window.drop_front(WINDOW_SIZE);
        let n: usize = self.num_bars;
        let s: u64 = self.smoothing;
        let b: u64 = self.bass_boost;
        let ghost prev_bars = self.bars@;
        let ghost map0 = self.freq_map@;
        let mut i: usize = 0;
        while i < n
            invariant
                i <= n,
                n == self.num_bars,
                s == self.smoothing,
                b == self.bass_boost,
                self.freq_map@ == map0,
                n <= MAX_BARS,
                s <= SCALE,
                b <= MAX_BOOST,
                self.bars@.len() == n,
                map0.len() == n,
                prev_bars.len() == n,
                spectrum@.len() == NUM_BINS,
                forall|j: int| 0 <= j < NUM_BINS ==> (#[trigger] spectrum@[j]) <= MAG_LIMIT,
                forall|j: int| 0 <= j < n ==> (#[trigger] map0[j]) < NUM_BINS,
                forall|j: int| 0 <= j < n ==> (#[trigger] prev_bars[j]) <= AMP_LIMIT,
                forall|j: int|
                    0 <= j < i ==> (#[trigger] self.bars@[j]) <= AMP_LIMIT && self.bars@[j] as int
                        == smoothed(
                        prev_bars[j] as int,
                        boosted_amp(spectrum@[map0[j] as int] as int, b as int, j, n as int),
                        s as int,
                    ),
                forall|j: int| i <= j < n ==> (#[trigger] self.bars@[j]) == prev_bars[j],
            decreases n - i,
        {
            let bin: usize = self.freq_map[i];
            let mag: u64 = spectrum[bin];
            let falloff: u64 = (n - i) as u64;
            assert(b * falloff <= MAX_BOOST * (MAX_BARS as u64)) by (nonlinear_arith)
                requires
                    b <= MAX_BOOST,
                    falloff <= MAX_BARS as u64,
            ;
            let weight: u64 = SCALE * (n as u64) + b * falloff;
            assert(weight <= WEIGHT_LIMIT);
            assert(mag * weight <= MAG_LIMIT * WEIGHT_LIMIT) by (nonlinear_arith)
                requires
                    mag <= MAG_LIMIT,
                    weight <= WEIGHT_LIMIT,
            ;
            let amp: u64 = mag * weight;
            let prev: u64 = self.bars[i];
            assert(prev * s <= AMP_LIMIT * SCALE && amp * (SCALE - s) <= AMP_LIMIT * SCALE)
                by (nonlinear_arith)
                requires
                    prev <= AMP_LIMIT,
                    amp <= AMP_LIMIT,
                    s <= SCALE,
            ;
            let blend: u64 = prev * s + amp * (SCALE - s);
            let nb: u64 = blend / SCALE;
            proof {
                lemma_smoothing_bounded(prev as int, amp as int, s as int);
            }
            self.bars[i] = nb;
            i = i + 1;
        }
    }
}

/// Smoothing is a monotone interpolation: with the factor in `[0, 1]`,
/// each bar's new value lies between its previous value and the raw
/// amplitude of the tick, inclusive.
pub proof fn lemma_smoothing_bounded(prev: int, amp: int, smoothing: int)
    requires
        0 <= smoothing <= SCALE,
        0 <= prev,
        0 <= amp,
    ensures
        prev <= amp ==> prev <= smoothed(prev, amp, smoothing) <= amp,
        amp <= prev ==> amp <= smoothed(prev, amp, smoothing) <= prev,
{
    let sc = SCALE as int;
    let blend = prev * smoothing + amp * (sc - smoothing);
    if prev <= amp {
        assert(prev * sc <= blend && blend <= amp * sc) by (nonlinear_arith)
            requires
                0 <= smoothing <= sc,
                0 <= prev <= amp,
                blend == prev * smoothing + amp * (sc - smoothing),
        ;
        lemma_div_is_ordered(prev * sc, blend, sc);
        lemma_div_is_ordered(blend, amp * sc, sc);
        lemma_div_by_multiple(prev, sc);
        lemma_div_by_multiple(amp, sc);
    } else {
        assert(amp * sc <= blend && blend <= prev * sc) by (nonlinear_arith)
            requires
                0 <= smoothing <= sc,
                0 <= amp <= prev,
                blend == prev * smoothing + amp * (sc - smoothing),
        ;
        lemma_div_is_ordered(amp * sc, blend, sc);
        lemma_div_is_ordered(blend, prev * sc, sc);
        lemma_div_by_multiple(prev, sc);
        lemma_div_by_multiple(amp, sc);
    }
}

/// Bass boost is strictly monotone: for a fixed positive raw magnitude
/// and a fixed positive boost, the boosted amplitude strictly decreases
/// as the bar index increases.
pub proof fn lemma_bass_boost_monotone(mag: int, bass_boost: int, n: int, i: int, j: int)
    requires
        0 < mag,
        0 < bass_boost,
        0 <= i < j < n,
    ensures
        boosted_amp(mag, bass_boost, j, n) < boosted_amp(mag, bass_boost, i, n),
{
    let wi = boost_weight(bass_boost, i, n);
    let wj = boost_weight(bass_boost, j, n);
    assert(wj < wi) by (nonlinear_arith)
        requires
            0 < bass_boost,
            0 <= i < j < n,
            wi == (SCALE as int) * n + bass_boost * (n - i),
            wj == (SCALE as int) * n + bass_boost * (n - j),
    ;
    assert(mag * wj < mag * wi) by (nonlinear_arith)
        requires
            0 < mag,
            wj < wi,
    ;
}

} // verus!
