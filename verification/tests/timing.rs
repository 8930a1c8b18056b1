use aperture::clock::{is_wake_gap, watcher_reconcile_delay, SLEEP_WAKE_THRESHOLD_SECS};
use std::time::Duration;

#[test]
fn a_short_gap_is_not_a_wake() {
    let last = aperture::clock::now_instant();
    let now = last + 10_000_000_000;
    assert!(!is_wake_gap(last, now));
}

#[test]
fn a_gap_past_the_threshold_is_a_wake() {
    let last = aperture::clock::now_instant();
    let now = last + (SLEEP_WAKE_THRESHOLD_SECS as i128 + 1) * 1_000_000_000;
    assert!(is_wake_gap(last, now));
}

#[test]
fn no_delay_needed_when_spacing_already_satisfied() {
    assert_eq!(
        watcher_reconcile_delay(Duration::from_secs(2).as_nanos(), Duration::from_secs(1).as_nanos()),
        None
    );
}

#[test]
fn no_delay_needed_when_spacing_exactly_satisfied() {
    assert_eq!(
        watcher_reconcile_delay(Duration::from_secs(1).as_nanos(), Duration::from_secs(1).as_nanos()),
        None
    );
}

#[test]
fn delay_needed_when_within_minimum_spacing() {
    assert_eq!(
        watcher_reconcile_delay(Duration::from_millis(300).as_nanos(), Duration::from_secs(1).as_nanos()),
        Some(Duration::from_millis(700).as_nanos())
    );
}

#[test]
fn exactly_the_threshold_is_not_a_wake() {
    let last = 1_000_000;
    assert!(!is_wake_gap(last, last + SLEEP_WAKE_THRESHOLD_SECS as i128 * 1_000_000_000 + 999_999_999));
    assert!(is_wake_gap(last, last + (SLEEP_WAKE_THRESHOLD_SECS as i128 + 1) * 1_000_000_000));
}

#[test]
fn a_clock_moving_backwards_is_not_a_wake() {
    assert!(!is_wake_gap(1_000_000, 0));
}
