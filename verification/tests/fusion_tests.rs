use threat_sentry::fusion::combined_score;
use threat_sentry::fusion::combined_score_with_mail;
use threat_sentry::fusion::FusionEngine;
use threat_sentry::mic::MicMonitor;
use threat_sentry::notification::NotificationManager;

fn engine() -> FusionEngine {
    FusionEngine::new(
        "user".to_string(),
        "test-password".to_string(),
        "imap.example.com".to_string(),
    )
}

#[test]
fn combined_score_is_the_truncated_mean() {
    assert_eq!(combined_score(40, 60, 20), 40);
    assert_eq!(combined_score_with_mail(40, 60, 20, 100), 55);
    assert_eq!(combined_score(0, 0, 0), 0);
    assert_eq!(combined_score(1, 1, 0), 0);
    assert_eq!(combined_score_with_mail(100, 100, 100, 100), 100);
}

#[test]
fn start_all_is_idempotent_and_restart_issues_a_fresh_token() {
    let mut e = engine();
    assert!(!e.is_running());
    let t1 = e.start_all().expect("first start");
    assert!(e.is_running());
    assert!(e.live(t1));
    assert_eq!(e.start_all(), None, "already running: no second loop");

    e.stop_all();
    assert!(!e.is_running());
    assert!(!e.live(t1), "the old loop retires at its next poll");

    let t2 = e.start_all().expect("restart");
    assert_ne!(t1, t2);
    assert!(e.live(t2));
    assert!(!e.live(t1));
}

#[test]
fn tick_appends_synchronized_history_points() {
    let mut e = engine();
    e.tick(4500, 1000, 20_000, 100);
    e.tick(4600, 1500, 1000, 200);
    let snap = e.snapshot();
    assert_eq!(snap.temperature_history, vec![4500, 4600]);
    assert_eq!(snap.time_history, vec![100, 200]);
    assert_eq!(snap.mic_power_history, vec![0, 0], "quiet microphone");
    // Two cool readings 1.0 degree apart: sample variance 0.5, so the
    // variance term contributes 5 points and the capped terms nothing.
    assert_eq!(snap.thermal_score, 5);
    assert_eq!(snap.combined_score, combined_score(0, 5, 0));
}

#[test]
fn engine_histories_stay_bounded_at_100() {
    let mut e = engine();
    for i in 0..120u64 {
        e.tick(4500, 1000, 20_000, i);
    }
    let snap = e.snapshot();
    assert_eq!(snap.time_history.len(), 100);
    assert_eq!(snap.time_history[0], 20);
    assert_eq!(snap.time_history[99], 119);
    assert_eq!(snap.temperature_history.len(), 100);
    assert_eq!(snap.mic_power_history.len(), 100);
}

#[test]
fn mail_cycle_publishes_scores_and_folds_in_the_mail_term() {
    let mut e = engine();
    let bodies: Vec<Vec<u8>> = vec![
        b"Check out this link: https://example.com/login".to_vec(),
        b"Important security update: https://secure-site.com/update".to_vec(),
    ];
    e.mail_cycle(Some(bodies));
    let snap = e.snapshot();
    assert_eq!(snap.urls.len(), 2);
    assert_eq!(snap.urls[0].0, b"https://example.com/login".to_vec());
    assert_eq!(snap.urls[0].1, 70);
    assert_eq!(snap.urls[1].1, 30);
    assert_eq!(snap.email_score, 70);
    // (0 + 0 + 0 + 70) / 4 = 17.
    assert_eq!(snap.combined_score, 17);
}

#[test]
fn failed_mail_cycle_changes_nothing() {
    let mut e = engine();
    let bodies: Vec<Vec<u8>> = vec![b"https://example.com/login".to_vec()];
    e.mail_cycle(Some(bodies));
    let before = e.snapshot();

    e.mail_cycle(None);
    let after = e.snapshot();
    assert_eq!(after.urls, before.urls, "URL list byte-for-byte unchanged");
    assert_eq!(after.email_score, before.email_score);
    assert_eq!(after.combined_score, before.combined_score);
}

#[test]
fn simulated_microphone_latches_on_the_fifth_tick() {
    let mut m = MicMonitor::new();
    for _ in 0..4 {
        m.simulated_tick();
        assert_eq!(m.get_threat_score(), 0, "noise ticks never latch");
    }
    m.simulated_tick();
    assert!(m.analyzer.high_freq_detected);
    // Latched power 200_000 + 5 * 33_333 gives a capped score.
    assert_eq!(m.analyzer.latched_power, 366_665);
    assert_eq!(m.get_threat_score(), 100);
    let spectrum = m.get_fft_results();
    assert_eq!(spectrum.len(), 1024);
    // The synthetic peak sits at four fifths of the span.
    assert_eq!(spectrum[819], 1_000_000);
    assert!(spectrum[0] >= 50_000 && spectrum[0] <= 150_000);
    assert_eq!(m.get_ultrasonic_power(), 366_665);
}

#[test]
fn notification_timeout_follows_the_urgency_bands() {
    let n = NotificationManager::new();
    assert_eq!(n.timeout_millis(0), 3000);
    assert_eq!(n.timeout_millis(30), 3000);
    assert_eq!(n.timeout_millis(31), 5000);
    assert_eq!(n.timeout_millis(70), 5000);
    assert_eq!(n.timeout_millis(71), 10_000);
    assert_eq!(n.timeout_millis(100), 10_000);
}
