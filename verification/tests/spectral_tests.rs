use rustfft::num_complex::Complex32;
use rustfft::FftPlanner;
use threat_sentry::spectral::SpectralAnalyzer;
use threat_sentry::spectral::SCALE;
use threat_sentry::spectral::SPECTRUM_LEN;
use threat_sentry::spectral::WINDOW_SIZE;

const RATE: u32 = 44_100;

#[test]
fn short_blocks_never_publish_a_spectrum() {
    let mut a = SpectralAnalyzer::new(RATE);
    let block: Vec<i32> = vec![1000; 1000];
    a.append_block(&block);
    assert!(a.take_window().is_none());
    a.append_block(&block);
    a.append_block(&block);
    a.append_block(&block);
    // 4000 samples buffered: still less than one window.
    assert!(a.take_window().is_none());
    assert!(a.spectrum.is_empty());
    assert_eq!(a.band_power, 0);
    assert!(!a.high_freq_detected);
    assert_eq!(a.threat_score(), 0);
}

#[test]
fn take_window_drains_exactly_one_window() {
    let mut a = SpectralAnalyzer::new(RATE);
    let block: Vec<i32> = (0..5000).collect();
    a.append_block(&block);
    let w = a.take_window().expect("a full window is buffered");
    assert_eq!(w.len(), WINDOW_SIZE);
    assert_eq!(w[0], 0);
    assert_eq!(w[WINDOW_SIZE - 1], (WINDOW_SIZE - 1) as i32);
    assert_eq!(a.samples_buffered(), 5000 - WINDOW_SIZE);
    assert!(a.take_window().is_none());
}

#[test]
fn all_zero_window_has_zero_band_power() {
    let mut a = SpectralAnalyzer::new(RATE);
    let mags: Vec<u64> = vec![0; SPECTRUM_LEN];
    a.publish_magnitudes(&mags);
    assert_eq!(a.spectrum.len(), SPECTRUM_LEN);
    assert!(a.spectrum.iter().all(|&v| v == 0));
    assert_eq!(a.band_power, 0);
    assert!(!a.high_freq_detected);
    assert_eq!(a.threat_score(), 0);
}

#[test]
fn ultrasonic_peak_latches_and_is_sticky() {
    let mut a = SpectralAnalyzer::new(RATE);
    // Energy only in the 15-20 kHz band: bins 1393..=1857 at 44.1 kHz.
    let lo = (15_000u64 * WINDOW_SIZE as u64 / RATE as u64) as usize;
    let hi = (20_000u64 * WINDOW_SIZE as u64 / RATE as u64) as usize;
    let mut mags: Vec<u64> = vec![0; SPECTRUM_LEN];
    for b in mags.iter_mut().take(hi + 1).skip(lo) {
        *b = 1000;
    }
    a.publish_magnitudes(&mags);
    assert_eq!(a.band_power, SCALE, "every band bin is at the maximum");
    assert!(a.high_freq_detected);
    assert_eq!(a.latched_power, SCALE);
    // 50 + SCALE * 500 / SCALE caps at 100.
    assert_eq!(a.threat_score(), 100);

    // A quiet window afterwards leaves the latch and the score alone.
    let silence: Vec<u64> = vec![0; SPECTRUM_LEN];
    a.publish_magnitudes(&silence);
    assert_eq!(a.band_power, 0);
    assert!(a.high_freq_detected, "the latch is sticky");
    assert_eq!(a.latched_power, SCALE);
    assert_eq!(a.threat_score(), 100);
}

#[test]
fn normalization_scales_by_the_maximum() {
    let mut a = SpectralAnalyzer::new(RATE);
    let mut mags: Vec<u64> = vec![0; SPECTRUM_LEN];
    mags[10] = 400;
    mags[11] = 200;
    mags[12] = 100;
    a.publish_magnitudes(&mags);
    assert_eq!(a.spectrum[10], SCALE);
    assert_eq!(a.spectrum[11], SCALE / 2);
    assert_eq!(a.spectrum[12], SCALE / 4);
    assert_eq!(a.spectrum[13], 0);
}

/// A pure sine at f < rate/2 peaks within one bin of round(f / (rate/W)).
#[test]
fn sine_peaks_at_its_frequency_bin() {
    let freq: f32 = 3000.0;
    let mut samples: Vec<Complex32> = (0..WINDOW_SIZE)
        .map(|n| {
            let t = n as f32 / RATE as f32;
            let s = (2.0 * std::f32::consts::PI * freq * t).sin();
            // Hann window, as the capture pipeline applies before the
            // transform.
            let w = 0.5
                * (1.0
                    - (2.0 * std::f32::consts::PI * n as f32 / WINDOW_SIZE as f32).cos());
            Complex32::new(s * w, 0.0)
        })
        .collect();
    let mut planner = FftPlanner::new();
    let fft = planner.plan_fft_forward(WINDOW_SIZE);
    fft.process(&mut samples);
    let mags: Vec<u64> = samples[..SPECTRUM_LEN]
        .iter()
        .map(|c| (c.norm_sqr().sqrt() * 1000.0) as u64)
        .collect();

    let mut a = SpectralAnalyzer::new(RATE);
    a.publish_magnitudes(&mags);

    let peak = a
        .spectrum
        .iter()
        .enumerate()
        .max_by_key(|(_, v)| **v)
        .map(|(i, _)| i)
        .unwrap();
    let expected = (freq * WINDOW_SIZE as f32 / RATE as f32).round() as usize;
    assert!(
        peak + 1 >= expected && peak <= expected + 1,
        "peak bin {} not within one of {}",
        peak,
        expected
    );
    assert_eq!(a.spectrum[peak], SCALE, "the peak normalizes to 1.0");
}
