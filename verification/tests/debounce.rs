use md_preview::debounce::{ChangeDetector, QUIET_PERIOD_MS};

#[test]
fn quiet_period_is_one_second() {
    assert_eq!(QUIET_PERIOD_MS, 1000);
}

#[test]
fn new_detector_starts_its_window_at_the_start_time() {
    let detector = ChangeDetector::new(250);
    assert_eq!(detector.last_emitted_at(), 250);
}

#[test]
fn event_inside_the_first_window_is_absorbed() {
    let mut detector = ChangeDetector::new(0);
    assert!(!detector.on_raw_event(999));
    assert_eq!(detector.last_emitted_at(), 0);
}

#[test]
fn event_exactly_one_period_later_emits() {
    let mut detector = ChangeDetector::new(0);
    assert!(detector.on_raw_event(1000));
    assert_eq!(detector.last_emitted_at(), 1000);
}

#[test]
fn event_one_millisecond_short_is_absorbed() {
    let mut detector = ChangeDetector::new(4000);
    assert!(!detector.on_raw_event(4999));
    assert!(detector.on_raw_event(5000));
}

#[test]
fn burst_of_three_edits_emits_one_signal() {
    let mut detector = ChangeDetector::new(0);
    let emitted: Vec<bool> =
        [5000u64, 5200, 5400].iter().map(|at| detector.on_raw_event(*at)).collect();
    assert_eq!(emitted, vec![true, false, false]);
    assert_eq!(detector.last_emitted_at(), 5000);
}

#[test]
fn absorbed_events_do_not_move_the_window() {
    let mut detector = ChangeDetector::new(0);
    assert!(detector.on_raw_event(2000));
    for at in [2100u64, 2500, 2999] {
        assert!(!detector.on_raw_event(at));
        assert_eq!(detector.last_emitted_at(), 2000);
    }
    assert!(detector.on_raw_event(3000));
    assert_eq!(detector.last_emitted_at(), 3000);
}

#[test]
fn next_burst_after_a_quiet_period_emits_again() {
    let mut detector = ChangeDetector::new(0);
    let mut signals = 0;
    for at in [5000u64, 5200, 5400, 6400, 6500] {
        if detector.on_raw_event(at) {
            signals += 1;
        }
    }
    assert_eq!(signals, 2);
    assert_eq!(detector.last_emitted_at(), 6400);
}

#[test]
fn slow_drip_emits_once_per_full_period_since_the_last_emission() {
    let mut detector = ChangeDetector::new(0);
    let emitted: Vec<bool> =
        [999u64, 1998, 2997, 3996].iter().map(|at| detector.on_raw_event(*at)).collect();
    assert_eq!(emitted, vec![false, true, false, true]);
    assert_eq!(detector.last_emitted_at(), 3996);
}

#[test]
fn clock_reading_before_the_reference_is_absorbed() {
    let mut detector = ChangeDetector::new(10_000);
    assert!(!detector.on_raw_event(3));
    assert_eq!(detector.last_emitted_at(), 10_000);
}

#[test]
fn latest_clock_reading_does_not_overflow() {
    let mut detector = ChangeDetector::new(u64::MAX - 999);
    assert!(!detector.on_raw_event(u64::MAX));
    let mut early = ChangeDetector::new(0);
    assert!(early.on_raw_event(u64::MAX));
    assert_eq!(early.last_emitted_at(), u64::MAX);
}
