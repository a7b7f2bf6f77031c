use threat_sentry::thermal::fallback_cpu_centi;
use threat_sentry::thermal::fallback_temperature_centi;
use threat_sentry::thermal::temp_estimate_from_battery;
use threat_sentry::thermal::temp_estimate_from_cpu;
use threat_sentry::thermal::ThermalMonitor;

#[test]
fn spike_latches_and_forces_a_flat_80() {
    let mut m = ThermalMonitor::new();
    // The first reading sets the reference but can never spike.
    m.record_reading(4000, 1000, 1);
    assert!(!m.spike_detected);
    // A rise of 15 degrees within 5 seconds latches the spike.
    m.record_reading(5500, 1000, 5000);
    assert!(m.spike_detected);
    assert_eq!(m.get_threat_score(), 80);
    // The latch is sticky: cool readings afterwards change nothing.
    m.record_reading(3000, 0, 20_000);
    assert!(m.spike_detected);
    assert_eq!(m.get_threat_score(), 80);
}

#[test]
fn slow_or_small_rises_never_spike() {
    let mut m = ThermalMonitor::new();
    m.record_reading(4000, 0, 1);
    // Large rise, but slower than the window.
    m.record_reading(5500, 0, 10_000);
    assert!(!m.spike_detected);
    // Fast, but not a large enough rise.
    m.record_reading(6400, 0, 1000);
    assert!(!m.spike_detected);
}

#[test]
fn score_sums_the_capped_terms() {
    let mut m = ThermalMonitor::new();
    // Ten identical readings: 70.00 degrees, 90.00 percent CPU.
    for _ in 0..10 {
        m.record_reading(7000, 9000, 20_000);
    }
    assert!(!m.spike_detected);
    // (70-60)*2 = 20 points, (90-80)*2 = 20 points, variance 0.
    assert_eq!(m.get_threat_score(), 40);
}

#[test]
fn temperature_term_caps_at_40() {
    let mut m = ThermalMonitor::new();
    for _ in 0..10 {
        // 95 degrees would score 70 uncapped; low CPU.
        m.record_reading(9500, 0, 20_000);
    }
    assert_eq!(m.get_threat_score(), 40);
}

#[test]
fn no_data_scores_zero() {
    let m = ThermalMonitor::new();
    assert_eq!(m.get_threat_score(), 0);
}

#[test]
fn histories_keep_the_last_ten_readings() {
    let mut m = ThermalMonitor::new();
    for i in 0..15 {
        m.record_reading(4000 + i, 100, 20_000);
    }
    let temps = m.temperature_history.snapshot();
    assert_eq!(temps.len(), 10);
    assert_eq!(temps[0], 4005);
    assert_eq!(temps[9], 4014);
    assert_eq!(m.cpu_usage_history.len(), 10);
}

#[test]
fn fallback_estimates_stay_in_their_ranges() {
    for _ in 0..50 {
        let t = fallback_temperature_centi();
        assert!((4500..=5000).contains(&t));
        let c = fallback_cpu_centi();
        assert!(c <= 10_000);
    }
}

#[test]
fn battery_and_cpu_temperature_estimates() {
    // Discharging at 30 percent: 45 + (100-30)/10 = 52 degrees.
    assert_eq!(temp_estimate_from_battery(30, false), Some(5200));
    // On AC power the battery proxy does not apply.
    assert_eq!(temp_estimate_from_battery(30, true), None);
    assert_eq!(temp_estimate_from_battery(80, false), None);
    // 50 percent CPU: 40 + 50/5 = 50 degrees.
    assert_eq!(temp_estimate_from_cpu(5000), 5000);
}
