use inventory_dashboard::clock::{current_timestamp, micros_or_zero, next_log_id, seconds_or_zero};
use std::time::{Duration, SystemTime, UNIX_EPOCH};

#[test]
fn seconds_of_a_reading() {
    assert_eq!(seconds_or_zero(Ok(Duration::from_millis(5_999))), 5);
    assert_eq!(seconds_or_zero(Ok(Duration::from_secs(1_700_000_000))), 1_700_000_000);
}

#[test]
fn micros_of_a_reading() {
    assert_eq!(micros_or_zero(Ok(Duration::from_millis(5_999))), 5_999_000);
    assert_eq!(micros_or_zero(Ok(Duration::new(3, 1_999))), 3_000_001);
    let huge = Duration::from_secs(u64::MAX);
    assert_eq!(micros_or_zero(Ok(huge)), huge.as_micros() as u64);
}

#[test]
fn reading_before_the_epoch_is_zero() {
    let later = SystemTime::now() + Duration::from_secs(3600);
    let err = UNIX_EPOCH.duration_since(later);
    assert!(err.is_err());
    assert_eq!(seconds_or_zero(UNIX_EPOCH.duration_since(later)), 0);
    assert_eq!(micros_or_zero(err), 0);
}

#[test]
fn clock_reads_now() {
    let secs = current_timestamp();
    let micros = next_log_id();
    assert!(secs > 1_600_000_000);
    assert!(micros / 1_000_000 >= secs);
}

#[test]
fn log_id_and_timestamp_agree_for_one_reading() {
    for d in [Duration::new(0, 0), Duration::new(1_700_000_000, 999_999_999), Duration::from_micros(5_999_999)] {
        assert_eq!(micros_or_zero(Ok(d)) / 1_000_000, seconds_or_zero(Ok(d)));
    }
}
