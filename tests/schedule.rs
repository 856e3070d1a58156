use procmon::schedule::{
    cpu_percent, faster_interval, memory_percent, poll_timeout, refresh_due, slower_interval,
    MAX_INTERVAL_MS, MIN_INTERVAL_MS,
};

#[test]
fn paused_never_refreshes() {
    assert!(!refresh_due(10_000, 500, true));
    assert!(refresh_due(10_000, 500, false));
    assert!(refresh_due(500, 500, false));
    assert!(!refresh_due(499, 500, false));
}

#[test]
fn interval_steps_stay_in_bounds() {
    assert_eq!(faster_interval(1000), 800);
    assert_eq!(faster_interval(300), MIN_INTERVAL_MS);
    assert_eq!(faster_interval(MIN_INTERVAL_MS), MIN_INTERVAL_MS);
    assert_eq!(slower_interval(1000), 1200);
    assert_eq!(slower_interval(4900), MAX_INTERVAL_MS);
    assert_eq!(slower_interval(MAX_INTERVAL_MS), MAX_INTERVAL_MS);
}

#[test]
fn timeout_is_time_left() {
    assert_eq!(poll_timeout(300, 1000), 700);
    assert_eq!(poll_timeout(1500, 1000), 0);
}

#[test]
fn percentages() {
    assert_eq!(memory_percent(50, 200), 25);
    assert_eq!(memory_percent(5, 0), 0);
    assert_eq!(memory_percent(300, 200), 100);
    assert_eq!(memory_percent(u64::MAX, u64::MAX), 100);
    assert_eq!(cpu_percent(1250), 12);
    assert_eq!(cpu_percent(25_000), 100);
}
