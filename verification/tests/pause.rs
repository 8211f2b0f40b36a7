use std::time::{Duration, SystemTime, UNIX_EPOCH};

use tailcloak::pause;
use tailcloak::pause::{read_deadline, remaining, PauseError, PauseUpdate, Timestamp};

fn stamp(t: SystemTime) -> Timestamp {
    let d = t.duration_since(UNIX_EPOCH).expect("clock after the epoch");
    Timestamp { secs: d.as_secs() as i64, nanos: d.subsec_nanos() }
}

fn written(update: PauseUpdate) -> String {
    match update {
        PauseUpdate::Start { contents, .. } => contents,
        PauseUpdate::Clear => panic!("expected a pause to start"),
    }
}

#[test]
fn set_then_remaining_is_within_window() {
    let now = stamp(SystemTime::now());
    let contents = written(pause::set(now, 5).unwrap());
    let left = remaining(read_deadline(&contents), now).expect("should be paused");
    assert!(left.as_secs() > 0 && left.as_secs() <= 5 * 60);
}

#[test]
fn expired_window_reads_as_not_paused() {
    let start = SystemTime::now();
    let contents = written(pause::set(stamp(start), 5).unwrap());
    let later = start + Duration::from_secs(10 * 60); // window has elapsed
    assert!(remaining(read_deadline(&contents), stamp(later)).is_none());
}

#[test]
fn zero_minutes_clears_any_pause() {
    let now = stamp(SystemTime::now());
    written(pause::set(now, 5).unwrap());
    assert_eq!(pause::set(now, 0), Ok(PauseUpdate::Clear)); // resume: the file is removed
    assert!(remaining(None, now).is_none());
}

#[test]
fn missing_file_is_not_paused() {
    assert!(remaining(None, stamp(SystemTime::now())).is_none());
}

#[test]
fn garbage_file_fails_open() {
    let now = stamp(SystemTime::now());
    assert!(remaining(read_deadline("not-a-number"), now).is_none());
}

#[test]
fn pause_file_holds_end_second() {
    let now = Timestamp { secs: 1_700_000_000, nanos: 250_000_000 };
    assert_eq!(
        pause::set(now, 5),
        Ok(PauseUpdate::Start { until_secs: 1_700_000_300, contents: "1700000300".to_string() })
    );
    assert_eq!(read_deadline("1700000300\n"), Some(1_700_000_300));
    assert_eq!(read_deadline("  +42 "), Some(42));
    assert_eq!(read_deadline("-42"), None);
    assert_eq!(read_deadline(""), None);
    assert_eq!(read_deadline("18446744073709551616"), None);
    assert_eq!(read_deadline("18446744073709551615"), Some(u64::MAX));
}

#[test]
fn remaining_is_exact() {
    let now = Timestamp { secs: 1_700_000_000, nanos: 250_000_000 };
    let left = remaining(Some(1_700_000_300), now).unwrap();
    assert_eq!((left.as_secs(), left.subsec_nanos()), (299, 750_000_000));
    let at_end = Timestamp { secs: 1_700_000_300, nanos: 0 };
    let zero = remaining(Some(1_700_000_300), at_end).unwrap();
    assert_eq!((zero.as_secs(), zero.subsec_nanos()), (0, 0));
    let after = Timestamp { secs: 1_700_000_300, nanos: 1 };
    assert!(remaining(Some(1_700_000_300), after).is_none());
}

#[test]
fn pause_ending_before_epoch_is_an_error() {
    let now = Timestamp { secs: -1_000, nanos: 0 };
    assert_eq!(pause::set(now, 1), Err(PauseError::DeadlineBeforeEpoch));
    assert!(pause::set(Timestamp { secs: -60, nanos: 0 }, 1).is_ok());
}

#[test]
fn far_future_deadline_fails_open() {
    let now = Timestamp { secs: 1_700_000_000, nanos: 0 };
    assert!(remaining(read_deadline("18446744073709551615"), now).is_none());
    assert!(remaining(Some(9_223_372_036_854_775_808), now).is_none());
    assert!(remaining(Some(9_223_372_036_854_775_807), now).is_some());
}
