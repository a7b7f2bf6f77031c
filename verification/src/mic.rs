//! Microphone monitor: spectral analysis of captured audio, or a synthetic
//! spectrum when no capture device exists.
//!
//! With a device, the capture loop feeds sample blocks into the analyzer and
//! publishes magnitudes window by window.  Without one, the monitor
//! synthesizes a spectrum on every tick: every fifth tick carries an
//! ultrasonic-like peak and latches the detector, the other ticks carry only
//! background noise.  The alternation is deterministic; only the noise floor
//! is random, and it is bounded.

use vstd::prelude::*;
use crate::lifecycle::Lifecycle;
use crate::random::random_up_to;
use crate::spectral::SpectralAnalyzer;
use crate::spectral::SCALE;

verus! {

/// Default capture sample rate in Hz, used until a device reports its own.
pub const DEFAULT_SAMPLE_RATE: u32 = 44_100;

/// Bins in a synthetic spectrum.
pub const SIM_SPECTRUM_LEN: usize = 1024;

/// Centre bin of the synthetic ultrasonic peak (four fifths of the span).
pub const SIM_PEAK_CENTER: usize = 1024 * 4 / 5;

/// Bins on each side of the centre that belong to the peak.
pub const SIM_PEAK_WIDTH: usize = 50;

/// Lowest synthetic noise value (0.05 of `SCALE`).
pub const SIM_NOISE_FLOOR: u32 = 50_000;

/// Span of the synthetic noise above its floor (0.1 of `SCALE`).
pub const SIM_NOISE_SPAN: u32 = 100_000;

/// A synthetic peak tick comes every this many ticks.
pub const SIM_PEAK_PERIOD: u64 = 5;

/// Distance from the peak centre, as a spec value.
pub open spec fn peak_distance(j: int) -> int {
    if j >= SIM_PEAK_CENTER {
        j - SIM_PEAK_CENTER
    } else {
        SIM_PEAK_CENTER - j
    }
}

/// Synthetic peak magnitude at distance `d` from the centre:
/// 0.2 + 0.8 * (1 - d / 50), scaled by `SCALE`.
pub open spec fn sim_peak_value(d: int) -> int {
    200_000 + 16_000 * (50 - d)
}

/// Synthetic latched power on peak tick `t`: 0.2 + (t mod 10) / 30, scaled
/// by `SCALE` with the quotient truncated (33_333 = SCALE / 30).
pub open spec fn sim_power(t: u64) -> int {
    200_000 + (t as int % 10) * 33_333
}

/// The microphone monitor: lifecycle plus analyzer state.
pub struct MicMonitor {
    pub analyzer: SpectralAnalyzer,
    pub lifecycle: Lifecycle,
    /// Ticks of the synthetic generator taken so far.
    pub ticks: u64,
}

impl MicMonitor {
    pub open spec fn wf(&self) -> bool {
        self.analyzer.wf()
    }

    pub fn new() -> (r: MicMonitor)
        ensures
            r.wf(),
            !r.lifecycle.is_running_spec(),
            r.lifecycle.epoch_spec() == 0,
            r.ticks == 0,
            r.analyzer.sample_rate == DEFAULT_SAMPLE_RATE,
            r.analyzer.buffer@ == Seq::<i32>::empty(),
            r.analyzer.spectrum@ == Seq::<u32>::empty(),
            !r.analyzer.high_freq_detected,
            r.analyzer.band_power == 0,
            r.analyzer.latched_power == 0,
    {
        MicMonitor {
            analyzer: SpectralAnalyzer::new(DEFAULT_SAMPLE_RATE),
            lifecycle: Lifecycle::new(),
            ticks: 0,
        }
    }

    /// Adopt the sample rate the capture device reports.
    pub fn set_sample_rate(&mut self, rate: u32)
        requires
            old(self).wf(),
            rate >= 1,
        ensures
            final(self).wf(),
            final(self).analyzer.sample_rate == rate,
            final(self).analyzer.buffer@ == old(self).analyzer.buffer@,
            final(self).analyzer.spectrum@ == old(self).analyzer.spectrum@,
            final(self).analyzer.band_power == old(self).analyzer.band_power,
            final(self).analyzer.high_freq_detected == old(self).analyzer.high_freq_detected,
            final(self).analyzer.latched_power == old(self).analyzer.latched_power,
            final(self).lifecycle == old(self).lifecycle,
            final(self).ticks == old(self).ticks,
    {
        self.analyzer.sample_rate = rate;
    }

    /// Start the monitor; idempotent, returns the new loop's token if one
    /// should be spawned.
    pub fn start_monitoring(&mut self) -> (r: Option<u64>)
        requires
            old(self).wf(),
            old(self).lifecycle.epoch_spec() < u64::MAX,
        ensures
            final(self).wf(),
            final(self).lifecycle.is_running_spec(),
            final(self).analyzer == old(self).analyzer,
            final(self).ticks == old(self).ticks,
            old(self).lifecycle.is_running_spec() ==> r is None
                && final(self).lifecycle == old(self).lifecycle,
            !old(self).lifecycle.is_running_spec() ==> r == Some(
                final(self).lifecycle.epoch_spec(),
            ),
    {
        self.lifecycle.start()
    }

    /// Request the capture loop to stop at its next poll.
    pub fn stop_monitoring(&mut self)
        requires
            old(self).wf(),
        ensures
            final(self).wf(),
            !final(self).lifecycle.is_running_spec(),
            final(self).lifecycle.epoch_spec() == old(self).lifecycle.epoch_spec(),
            final(self).analyzer == old(self).analyzer,
            final(self).ticks == old(self).ticks,
    {
        self.lifecycle.stop()
    }

    /// One synthetic tick: every `SIM_PEAK_PERIOD`-th tick publishes a
    /// spectrum with an ultrasonic peak and latches the detector, the others
    /// publish bounded noise and leave the detector state alone.
    pub fn simulated_tick(&mut self)
        requires
            old(self).wf(),
            old(self).ticks < u64::MAX,
        ensures
            final(self).wf(),
            final(self).ticks == old(self).ticks + 1,
            final(self).lifecycle == old(self).lifecycle,
            final(self).analyzer.buffer@ == old(self).analyzer.buffer@,
            final(self).analyzer.sample_rate == old(self).analyzer.sample_rate,
            final(self).analyzer.spectrum@.len() == SIM_SPECTRUM_LEN,
            forall|j: int|
                0 <= j < SIM_SPECTRUM_LEN && peak_distance(j) >= SIM_PEAK_WIDTH
                    ==> SIM_NOISE_FLOOR <= #[trigger] final(self).analyzer.spectrum@[j]
                        <= SIM_NOISE_FLOOR + SIM_NOISE_SPAN,
            (old(self).ticks + 1) % (SIM_PEAK_PERIOD as int) == 0 ==> {
                &&& forall|j: int|
                    0 <= j < SIM_SPECTRUM_LEN && peak_distance(j) < SIM_PEAK_WIDTH
                        ==> #[trigger] final(self).analyzer.spectrum@[j] == sim_peak_value(
                            peak_distance(j),
                        )
                &&& final(self).analyzer.high_freq_detected
                &&& final(self).analyzer.latched_power == sim_power(final(self).ticks)
                &&& final(self).analyzer.band_power == sim_power(final(self).ticks)
            },
            (old(self).ticks + 1) % (SIM_PEAK_PERIOD as int) != 0 ==> {
                &&& final(self).analyzer.high_freq_detected == old(
                    self,
                ).analyzer.high_freq_detected
                &&& final(self).analyzer.latched_power == old(self).analyzer.latched_power
                &&& final(self).analyzer.band_power == old(self).analyzer.band_power
            },
    {
        self.ticks = self.ticks + 1;
        let peak_tick: bool = self.ticks % SIM_PEAK_PERIOD == 0;

        let mut spectrum: Vec<u32> = Vec::new();
        let mut j: usize = 0;
        while j < SIM_SPECTRUM_LEN
            invariant
                j <= SIM_SPECTRUM_LEN,
                spectrum@.len() == j,
                forall|k: int|
                    0 <= k < j && peak_distance(k) >= SIM_PEAK_WIDTH
                        ==> SIM_NOISE_FLOOR <= #[trigger] spectrum@[k]
                            <= SIM_NOISE_FLOOR + SIM_NOISE_SPAN,
                peak_tick ==> forall|k: int|
                    0 <= k < j && peak_distance(k) < SIM_PEAK_WIDTH
                        ==> #[trigger] spectrum@[k] == sim_peak_value(peak_distance(k)),
                !peak_tick ==> forall|k: int|
                    0 <= k < j && peak_distance(k) < SIM_PEAK_WIDTH
                        ==> SIM_NOISE_FLOOR <= #[trigger] spectrum@[k]
                            <= SIM_NOISE_FLOOR + SIM_NOISE_SPAN,
                forall|k: int| 0 <= k < j ==> #[trigger] spectrum@[k] <= SCALE,
            decreases SIM_SPECTRUM_LEN - j,
        {
            let dist: usize = if j >= SIM_PEAK_CENTER {
                j - SIM_PEAK_CENTER
            } else {
                SIM_PEAK_CENTER - j
            };
            let v: u32 = if peak_tick && dist < SIM_PEAK_WIDTH {
                200_000 + 16_000 * ((SIM_PEAK_WIDTH - dist) as u32)
            } else {
                SIM_NOISE_FLOOR + random_up_to(SIM_NOISE_SPAN)
            };
            spectrum.push(v);
            j = j + 1;
        }
        self.analyzer.spectrum = spectrum;

        if peak_tick {
            let power: u32 = 200_000 + ((self.ticks % 10) as u32) * 33_333;
            self.analyzer.high_freq_detected = true;
            self.analyzer.latched_power = power;
            self.analyzer.band_power = power;
        }
    }

    /// The current audio threat score (see
    /// `SpectralAnalyzer::threat_score`).
    pub fn get_threat_score(&self) -> (r: u8)
        requires
            self.wf(),
        ensures
            r == self.analyzer.threat_score_spec(),
            r <= 100,
    {
        self.analyzer.threat_score()
    }

    /// A copy of the latest published spectrum.
    pub fn get_fft_results(&self) -> (r: Vec<u32>)
        ensures
            r@ == self.analyzer.spectrum@,
    {
        let mut out: Vec<u32> = Vec::new();
        let mut i: usize = 0;
        while i < self.analyzer.spectrum.len()
            invariant
                i <= self.analyzer.spectrum@.len(),
                out@ == self.analyzer.spectrum@.subrange(0, i as int),
            decreases self.analyzer.spectrum@.len() - i,
        {
            out.push(self.analyzer.spectrum[i]);
            proof {
                assert(out@ =~= self.analyzer.spectrum@.subrange(0, i + 1 as int));
            }
            i = i + 1;
        }
        proof {
            assert(out@ =~= self.analyzer.spectrum@);
        }
        out
    }

    /// The latest ultrasonic band power, scaled by `SCALE`.
    pub fn get_ultrasonic_power(&self) -> (r: u32)
        ensures
            r == self.analyzer.band_power,
    {
        self.analyzer.band_power
    }
}

} // verus!
