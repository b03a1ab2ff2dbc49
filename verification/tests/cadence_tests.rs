use woofer::cadence::emissions_in_window;

#[test]
fn ten_seconds_at_hundred_millis_is_one_hundred() {
    assert_eq!(emissions_in_window(10_000, 100), 100);
}

#[test]
fn count_stays_within_one_of_window_over_interval() {
    for window in [0u64, 1, 99, 100, 101, 999, 1000, 1001, 5000, 123_456] {
        for interval in [1u64, 7, 100, 250, 1000] {
            let n = emissions_in_window(window, interval);
            let floor = window / interval;
            assert!(floor <= n && n <= floor + 1);
        }
    }
}

#[test]
fn exact_counts_at_edges() {
    assert_eq!(emissions_in_window(0, 100), 0);
    assert_eq!(emissions_in_window(1, 100), 1);
    assert_eq!(emissions_in_window(100, 100), 1);
    assert_eq!(emissions_in_window(101, 100), 2);
    assert_eq!(emissions_in_window(1000, 100), 10);
    assert_eq!(emissions_in_window(1001, 100), 11);
}
