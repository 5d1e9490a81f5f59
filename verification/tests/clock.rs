use lasso_zen_bre::clock::{now_unix_ms, unix_ms};

#[test]
fn a_reading_counts_whole_milliseconds_since_the_epoch() {
    assert_eq!(unix_ms(None), 0);
    assert_eq!(unix_ms(Some((0, 0))), 0);
    assert_eq!(unix_ms(Some((1_700_000_000, 123))), 1_700_000_000_123);
    assert_eq!(unix_ms(Some((u64::MAX, 999))), u64::MAX as u128 * 1000 + 999);
}

#[test]
fn the_clock_reads_after_the_epoch() {
    let first = now_unix_ms();
    assert!(first > 1_600_000_000_000);
}
