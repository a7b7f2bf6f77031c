use threat_sentry::history::History;
use threat_sentry::lifecycle::Lifecycle;

#[test]
fn history_keeps_last_cap_in_order() {
    let mut h: History<u64> = History::new(100);
    for v in 0..150u64 {
        h.push(v);
    }
    let items = h.snapshot();
    assert_eq!(items.len(), 100);
    for (i, v) in items.iter().enumerate() {
        assert_eq!(*v, 50 + i as u64);
    }
}

#[test]
fn history_below_cap_keeps_everything() {
    let mut h: History<i32> = History::new(10);
    for v in [3, 1, 4, 1, 5] {
        h.push(v);
    }
    assert_eq!(h.snapshot(), vec![3, 1, 4, 1, 5]);
    assert_eq!(h.len(), 5);
}

#[test]
fn history_evicts_oldest_first() {
    let mut h: History<u32> = History::new(3);
    for v in [10, 20, 30, 40] {
        h.push(v);
    }
    assert_eq!(h.snapshot(), vec![20, 30, 40]);
}

#[test]
fn stop_then_start_retires_the_old_loop() {
    let mut lc = Lifecycle::new();
    let t1 = lc.start().expect("first start hands out a token");
    assert!(lc.is_running());
    assert!(lc.live(t1));

    // Idempotent: a second start spawns nothing.
    assert_eq!(lc.start(), None);

    lc.stop();
    assert!(!lc.is_running());
    assert!(!lc.live(t1));

    let t2 = lc.start().expect("restart hands out a token");
    assert_ne!(t1, t2, "the old loop's token must not stay live");
    assert!(!lc.live(t1));
    assert!(lc.live(t2));
}
