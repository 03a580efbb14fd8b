use system_properties::deadline::deadline;
use system_properties::deadline::duration_to_timespec;
use system_properties::deadline::remaining_time_until;
use system_properties::deadline::NANOS_PER_SEC;
use system_properties::store::Timespec;

#[test]
fn deadline_is_start_plus_timeout() {
    assert_eq!(deadline(None, 5), None);
    assert_eq!(deadline(Some(0), 5), Some(5));
    assert_eq!(deadline(Some(1_500_000_000), 250), Some(1_500_000_250));
}

#[test]
fn deadline_stops_at_the_last_point_in_time() {
    assert_eq!(deadline(Some(u128::MAX), 1), Some(u128::MAX));
    assert_eq!(deadline(Some(2), u128::MAX - 1), Some(u128::MAX));
    assert_eq!(deadline(Some(1), u128::MAX - 1), Some(u128::MAX));
}

#[test]
fn timespec_splits_seconds_and_nanoseconds() {
    assert_eq!(NANOS_PER_SEC, 1_000_000_000);
    assert_eq!(duration_to_timespec(0), Timespec { tv_sec: 0, tv_nsec: 0 });
    assert_eq!(duration_to_timespec(999_999_999), Timespec { tv_sec: 0, tv_nsec: 999_999_999 });
    assert_eq!(duration_to_timespec(1_000_000_000), Timespec { tv_sec: 1, tv_nsec: 0 });
    assert_eq!(
        duration_to_timespec(86_400_000_000_123),
        Timespec { tv_sec: 86_400, tv_nsec: 123 }
    );
}

#[test]
fn timespec_seconds_are_cut_to_what_fits() {
    let most = (i64::MAX as u128) * NANOS_PER_SEC + 999_999_999;
    assert_eq!(duration_to_timespec(most), Timespec { tv_sec: i64::MAX, tv_nsec: 999_999_999 });
    assert_eq!(duration_to_timespec(most + 1), Timespec { tv_sec: i64::MAX, tv_nsec: 0 });
    assert_eq!(
        duration_to_timespec(u128::MAX),
        Timespec { tv_sec: i64::MAX, tv_nsec: (u128::MAX % NANOS_PER_SEC) as i64 }
    );
}

#[test]
fn remaining_time_counts_down_to_zero() {
    assert_eq!(remaining_time_until(None, 77), None);
    let until = Some(10 * NANOS_PER_SEC);
    assert_eq!(remaining_time_until(until, 0), Some(Timespec { tv_sec: 10, tv_nsec: 0 }));
    assert_eq!(
        remaining_time_until(until, 2_500_000_000),
        Some(Timespec { tv_sec: 7, tv_nsec: 500_000_000 })
    );
    assert_eq!(
        remaining_time_until(until, 10 * NANOS_PER_SEC - 1),
        Some(Timespec { tv_sec: 0, tv_nsec: 1 })
    );
    assert_eq!(
        remaining_time_until(until, 10 * NANOS_PER_SEC),
        Some(Timespec { tv_sec: 0, tv_nsec: 0 })
    );
    assert_eq!(
        remaining_time_until(until, 11 * NANOS_PER_SEC),
        Some(Timespec { tv_sec: 0, tv_nsec: 0 })
    );
}
