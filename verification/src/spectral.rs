//! Spectral analysis of raw audio sample blocks.
//!
//! Samples arrive as fixed-point amplitudes and are buffered until a full
//! transform window is available.  The frequency transform itself is floating
//! point and runs outside this crate; the analyzer hands out exactly one
//! window of samples at a time and takes back the raw magnitude of each of
//! the first `WINDOW_SIZE / 2` bins, as unsigned fixed-point values.  It then
//! normalizes the magnitudes by their maximum (skipped when the maximum is
//! zero), publishes the spectrum, averages the bins of the ultrasonic band,
//! and latches the high-frequency flag when that band power crosses the
//! detection threshold.
//!
//! Normalized magnitudes, band power and latched power are scaled by
//! `SCALE`: a stored value `v` stands for the real magnitude `v / SCALE`,
//! so the invariant "spectrum values lie in [0, 1]" reads `v <= SCALE`.

use vstd::prelude::*;

verus! {

/// Samples per transform window.
pub const WINDOW_SIZE: usize = 4096;

/// Published spectrum length: half the window (real-input symmetry).
pub const SPECTRUM_LEN: usize = 4096 / 2;

/// Fixed-point unit: this value stands for the real number 1.0.
pub const SCALE: u32 = 1_000_000;

/// Band power above this latches the high-frequency flag (0.2 of `SCALE`).
pub const BAND_THRESHOLD: u32 = 200_000;

/// Lower edge of the ultrasonic band, in Hz.
pub const BAND_LO_HZ: u64 = 15_000;

/// Upper edge of the ultrasonic band, in Hz.
pub const BAND_HI_HZ: u64 = 20_000;

/// Cap on buffered raw samples (sixteen windows): a slow analyzer under a
/// fast producer drops the oldest samples instead of growing without bound.
pub const MAX_BUFFERED_SAMPLES: usize = 16 * 4096;

/// Largest element of `s` (zero for an empty sequence).
pub open spec fn seq_max(s: Seq<u64>) -> u64
    decreases s.len(),
{
    if s.len() == 0 {
        0
    } else {
        let m = seq_max(s.drop_last());
        if s.last() > m {
            s.last()
        } else {
            m
        }
    }
}

pub proof fn lemma_seq_max_is_bound(s: Seq<u64>)
    ensures
        forall|i: int| 0 <= i < s.len() ==> s[i] <= seq_max(s),
    decreases s.len(),
{
    if s.len() > 0 {
        lemma_seq_max_is_bound(s.drop_last());
        assert(forall|i: int| 0 <= i < s.len() - 1 ==> s[i] == s.drop_last()[i]);
    }
}

/// Sum of a sequence of scaled magnitudes.
pub open spec fn seq_sum(s: Seq<u32>) -> int
    decreases s.len(),
{
    if s.len() == 0 {
        0
    } else {
        seq_sum(s.drop_last()) + s.last()
    }
}

pub proof fn lemma_seq_sum_bounds(s: Seq<u32>, b: u32)
    requires
        forall|i: int| 0 <= i < s.len() ==> s[i] <= b,
    ensures
        0 <= seq_sum(s) <= s.len() * b,
    decreases s.len(),
{
    if s.len() > 0 {
        lemma_seq_sum_bounds(s.drop_last(), b);
        assert((s.len() - 1) * b + b == s.len() * b) by (nonlinear_arith);
    }
}

/// Magnitudes normalized by their maximum, scaled by `SCALE`; a window whose
/// maximum is zero is published as it is (all bins zero).
pub open spec fn normalized(mags: Seq<u64>) -> Seq<u32> {
    let m = seq_max(mags);
    if m == 0 {
        Seq::new(mags.len(), |i: int| mags[i] as u32)
    } else {
        Seq::new(mags.len(), |i: int| (mags[i] * SCALE / (m as int)) as u32)
    }
}

/// Index of the first spectrum bin at or above `hz`:
/// floor(hz / (rate / WINDOW_SIZE)).
pub open spec fn band_edge(hz: u64, rate: u32) -> int {
    hz * WINDOW_SIZE / (rate as int)
}

/// Mean of the spectrum bins with index in [lo, hi], truncated.
pub open spec fn band_mean(spectrum: Seq<u32>, lo: int, hi: int) -> int {
    seq_sum(spectrum.subrange(lo, hi + 1)) / (hi + 1 - lo)
}

/// Windowed spectral pipeline state for one capture source.
pub struct SpectralAnalyzer {
    /// Raw fixed-point samples not yet consumed by a window.
    pub buffer: Vec<i32>,
    /// Capture sample rate in Hz.
    pub sample_rate: u32,
    /// Latest published normalized spectrum (empty until first window).
    pub spectrum: Vec<u32>,
    /// Latest ultrasonic band power, scaled by `SCALE`.
    pub band_power: u32,
    /// Latched high-frequency flag: set when band power crosses the
    /// threshold, and sticky until an explicit reset.
    pub high_freq_detected: bool,
    /// Band power stored at the latest latch trigger.
    pub latched_power: u32,
}

impl SpectralAnalyzer {
    pub open spec fn wf(&self) -> bool {
        &&& self.sample_rate >= 1
        &&& self.buffer@.len() <= MAX_BUFFERED_SAMPLES
        &&& forall|i: int| 0 <= i < self.spectrum@.len() ==> self.spectrum@[i] <= SCALE
        &&& self.band_power <= SCALE
        &&& self.latched_power <= SCALE
    }

    /// The analysis outputs: everything except the raw sample buffer.
    pub open spec fn analysis_unchanged(&self, other: &SpectralAnalyzer) -> bool {
        &&& self.spectrum@ == other.spectrum@
        &&& self.band_power == other.band_power
        &&& self.high_freq_detected == other.high_freq_detected
        &&& self.latched_power == other.latched_power
        &&& self.sample_rate == other.sample_rate
    }

    pub fn new(sample_rate: u32) -> (r: SpectralAnalyzer)
        requires
            sample_rate >= 1,
        ensures
            r.wf(),
            r.sample_rate == sample_rate,
            r.buffer@ == Seq::<i32>::empty(),
            r.spectrum@ == Seq::<u32>::empty(),
            r.band_power == 0,
            !r.high_freq_detected,
            r.latched_power == 0,
    {
        let r = SpectralAnalyzer {
            buffer: Vec::new(),
            sample_rate,
            spectrum: Vec::new(),
            band_power: 0,
            high_freq_detected: false,
            latched_power: 0,
        };
        proof {
            assert(r.buffer@ =~= Seq::<i32>::empty());
            assert(r.spectrum@ =~= Seq::<u32>::empty());
        }
        r
    }

    /// Append a capture block to the sample buffer.  Never publishes: the
    /// spectrum, band power and latch are untouched, however short or long
    /// the block.  Keeps at most the newest `MAX_BUFFERED_SAMPLES` samples.
    pub fn append_block(&mut self, block: &Vec<i32>)
        requires
            old(self).wf(),
        ensures
            final(self).wf(),
            final(self).analysis_unchanged(old(self)),
            final(self).buffer@ == if old(self).buffer@.len() + block@.len()
                <= MAX_BUFFERED_SAMPLES {
                old(self).buffer@ + block@
            } else {
                (old(self).buffer@ + block@).skip(
                    old(self).buffer@.len() + block@.len() - MAX_BUFFERED_SAMPLES,
                )
            },
    {
        let mut i: usize = 0;
        while i < block.len()
            invariant
                i <= block@.len(),
                self.buffer@ == old(self).buffer@ + block@.subrange(0, i as int),
                self.analysis_unchanged(old(self)),
                self.buffer@.len() == old(self).buffer@.len() + i,
            decreases block@.len() - i,
        {
            self.buffer.push(block[i]);
            proof {
                assert(old(self).buffer@ + block@.subrange(0, i as int + 1)
                    =~= (old(self).buffer@ + block@.subrange(0, i as int)).push(block@[i as int]));
            }
            i = i + 1;
        }
        proof {
            assert(self.buffer@ =~= old(self).buffer@ + block@);
        }
        if self.buffer.len() > MAX_BUFFERED_SAMPLES {
            let excess = self.buffer.len() - MAX_BUFFERED_SAMPLES;
            let mut kept = self.buffer.split_off(excess);
            core::mem::swap(&mut self.buffer, &mut kept);
            proof {
                assert(self.buffer@ =~= (old(self).buffer@ + block@).skip(
                    old(self).buffer@.len() + block@.len() - MAX_BUFFERED_SAMPLES,
                ));
            }
        }
    }

    pub fn samples_buffered(&self) -> (r: usize)
        ensures
            r == self.buffer@.len(),
    {
        self.buffer.len()
    }

    /// Drain exactly the oldest `WINDOW_SIZE` samples, if that many are
    /// buffered.  With fewer samples buffered nothing happens and no spectrum
    /// is published: the analysis outputs are exactly as before.
    pub fn take_window(&mut self) -> (r: Option<Vec<i32>>)
        requires
            old(self).wf(),
        ensures
            final(self).wf(),
            final(self).analysis_unchanged(old(self)),
            old(self).buffer@.len() < WINDOW_SIZE ==> {
                &&& r is None
                &&& final(self).buffer@ == old(self).buffer@
            },
            old(self).buffer@.len() >= WINDOW_SIZE ==> {
                &&& r is Some
                &&& (r matches Some(w) ==> w@ == old(self).buffer@.subrange(0, WINDOW_SIZE as int))
                &&& final(self).buffer@ == old(self).buffer@.skip(WINDOW_SIZE as int)
            },
    {
        if self.buffer.len() >= WINDOW_SIZE {
            let mut window = self.buffer.split_off(WINDOW_SIZE);
            core::mem::swap(&mut self.buffer, &mut window);
            proof {
                assert(self.buffer@ =~= old(self).buffer@.skip(WINDOW_SIZE as int));
            }
            Some(window)
        } else {
            None
        }
    }

    /// Publish the spectrum computed from the raw bin magnitudes of one
    /// window: normalize by the maximum magnitude, recompute the ultrasonic
    /// band power (mean over bins `band_edge(15 kHz) ..= band_edge(20 kHz)`,
    /// clamped to the spectrum; skipped when that range is empty), and latch
    /// the high-frequency flag when the band power exceeds `BAND_THRESHOLD`.
    /// The latch is sticky: a later window never clears it, and only a new
    /// trigger overwrites the latched power.
    pub fn publish_magnitudes(&mut self, mags: &Vec<u64>)
        requires
            old(self).wf(),
            mags@.len() == SPECTRUM_LEN,
        ensures
            final(self).wf(),
            final(self).buffer@ == old(self).buffer@,
            final(self).sample_rate == old(self).sample_rate,
            final(self).spectrum@ == normalized(mags@),
            ({
                let lo = band_edge(BAND_LO_HZ, old(self).sample_rate);
                let hi = band_edge(BAND_HI_HZ, old(self).sample_rate);
                let hic = if hi < SPECTRUM_LEN - 1 { hi } else { SPECTRUM_LEN - 1 };
                if lo <= hic {
                    let mean = band_mean(normalized(mags@), lo, hic);
                    &&& final(self).band_power == mean
                    &&& final(self).high_freq_detected == (old(self).high_freq_detected
                        || mean > BAND_THRESHOLD)
                    &&& final(self).latched_power == if mean > BAND_THRESHOLD {
                        mean
                    } else {
                        old(self).latched_power as int
                    }
                } else {
                    &&& final(self).band_power == old(self).band_power
                    &&& final(self).high_freq_detected == old(self).high_freq_detected
                    &&& final(self).latched_power == old(self).latched_power
                }
            }),
    {
        // Maximum raw magnitude.
        let ghost mseq = mags@;
        let mut max: u64 = 0;
        let mut i: usize = 0;
        while i < mags.len()
            invariant
                i <= mseq.len(),
                mags@ == mseq,
                max == seq_max(mseq.subrange(0, i as int)),
            decreases mseq.len() - i,
        {
            proof {
                assert(mseq.subrange(0, i as int + 1).drop_last() =~= mseq.subrange(0, i as int));
            }
            if mags[i] > max {
                max = mags[i];
            }
            i = i + 1;
        }
        proof {
            assert(mseq.subrange(0, mseq.len() as int) =~= mseq);
        }

        // Normalize by the maximum (skip when the window is silent).
        let mut spectrum: Vec<u32> = Vec::new();
        let mut j: usize = 0;
        while j < mags.len()
            invariant
                j <= mseq.len(),
                mags@ == mseq,
                max == seq_max(mseq),
                spectrum@.len() == j,
                forall|k: int| 0 <= k < j ==> spectrum@[k] == normalized(mseq)[k],
                forall|k: int| 0 <= k < j ==> spectrum@[k] <= SCALE,
            decreases mseq.len() - j,
        {
            proof {
                lemma_seq_max_is_bound(mseq);
            }
            let v: u32 = if max == 0 {
                assert(mseq[j as int] == 0);
                mags[j] as u32
            } else {
                assert(mseq[j as int] * SCALE <= u64::MAX * (SCALE as int)) by (nonlinear_arith)
                    requires
                        mseq[j as int] <= u64::MAX,
                ;
                let q: u128 = (mags[j] as u128) * (SCALE as u128) / (max as u128);
                assert(mseq[j as int] * SCALE / (max as int) <= SCALE) by (nonlinear_arith)
                    requires
                        mseq[j as int] <= max as u64,
                        max as u64 >= 1,
                ;
                #[verifier::truncate] (q as u32)
            };
            spectrum.push(v);
            j = j + 1;
        }
        proof {
            assert(spectrum@ =~= normalized(mseq));
        }
        self.spectrum = spectrum;

        // Ultrasonic band power: mean of the bins in the clamped band range.
        let lo_u64: u64 = BAND_LO_HZ * (WINDOW_SIZE as u64) / (self.sample_rate as u64);
        let hi_u64: u64 = BAND_HI_HZ * (WINDOW_SIZE as u64) / (self.sample_rate as u64);
        let lo: usize = lo_u64 as usize;
        let hic: usize = if hi_u64 < (SPECTRUM_LEN - 1) as u64 {
            hi_u64 as usize
        } else {
            SPECTRUM_LEN - 1
        };
        if lo <= hic {
            let ghost sp = self.spectrum@;
            let mut sum: u64 = 0;
            let mut k: usize = lo;
            while k <= hic
                invariant
                    lo <= k <= hic + 1,
                    hic < sp.len(),
                    sp.len() == SPECTRUM_LEN,
                    sp == self.spectrum@,
                    forall|t: int| 0 <= t < sp.len() ==> sp[t] <= SCALE,
                    sum == seq_sum(sp.subrange(lo as int, k as int)),
                decreases hic + 1 - k,
            {
                proof {
                    assert(sp.subrange(lo as int, k as int + 1).drop_last()
                        =~= sp.subrange(lo as int, k as int));
                    lemma_seq_sum_bounds(sp.subrange(lo as int, k as int), SCALE);
                    assert((k - lo) * (SCALE as int) <= 2048 * (SCALE as int)) by (nonlinear_arith)
                        requires
                            0 <= k - lo <= 2048,
                    ;
                }
                sum = sum + (self.spectrum[k] as u64);
                k = k + 1;
            }
            let count: u64 = (hic - lo + 1) as u64;
            proof {
                lemma_seq_sum_bounds(sp.subrange(lo as int, hic as int + 1), SCALE);
            }
            let mean_u64: u64 = sum / count;
            assert(sum as int / count as int <= SCALE) by (nonlinear_arith)
                requires
                    sum <= count * (SCALE as int),
                    count >= 1,
            ;
            let mean: u32 = mean_u64 as u32;
            self.band_power = mean;
            if mean > BAND_THRESHOLD {
                self.high_freq_detected = true;
                self.latched_power = mean;
            }
        }
    }

    /// The audio threat score: zero until the high-frequency flag has ever
    /// latched; once latched, `50 + latched_power * 500 / SCALE`, capped at
    /// 100.  Sticky: it does not decay when later windows are quiet.
    pub open spec fn threat_score_spec(&self) -> int {
        if !self.high_freq_detected {
            0
        } else {
            let s = 50 + self.latched_power / 2000;
            if s > 100 {
                100
            } else {
                s as int
            }
        }
    }

    pub fn threat_score(&self) -> (r: u8)
        requires
            self.wf(),
        ensures
            r == self.threat_score_spec(),
            r <= 100,
    {
        if self.high_freq_detected {
            let s: u32 = 50 + self.latched_power / 2000;
            if s > 100 {
                100
            } else {
                s as u8
            }
        } else {
            0
        }
    }
}

/// An all-zero window has zero ultrasonic band power: whatever band range the
/// sample rate selects, the mean over it is zero.
pub proof fn lemma_zero_window_zero_band_power(mags: Seq<u64>, lo: int, hi: int)
    requires
        forall|i: int| 0 <= i < mags.len() ==> mags[i] == 0,
        0 <= lo <= hi < mags.len(),
    ensures
        band_mean(normalized(mags), lo, hi) == 0,
{
    let sp = normalized(mags);
    assert(seq_max(mags) == 0) by {
        lemma_seq_max_is_bound(mags);
        if seq_max(mags) > 0 {
            lemma_seq_max_exists(mags);
        }
    }
    assert(forall|i: int| 0 <= i < sp.len() ==> sp[i] == 0);
    let sub = sp.subrange(lo, hi + 1);
    assert(forall|i: int| 0 <= i < sub.len() ==> sub[i] == 0);
    lemma_seq_sum_bounds(sub, 0);
    assert(seq_sum(sub) == 0);
}

/// A positive maximum is attained by some element.
pub proof fn lemma_seq_max_exists(s: Seq<u64>)
    requires
        s.len() > 0,
    ensures
        exists|i: int| 0 <= i < s.len() && s[i] == seq_max(s),
    decreases s.len(),
{
    if s.len() == 1 {
        assert(s.drop_last().len() == 0);
        assert(seq_max(s.drop_last()) == 0);
        assert(s[0] == seq_max(s));
    } else {
        if s.last() > seq_max(s.drop_last()) {
            assert(s[s.len() - 1] == seq_max(s));
        } else {
            lemma_seq_max_exists(s.drop_last());
            let i = choose|i: int| 0 <= i < s.drop_last().len() && s.drop_last()[i] == seq_max(
                s.drop_last(),
            );
            assert(s[i] == seq_max(s));
        }
    }
}

} // verus!
