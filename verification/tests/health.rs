use unspace_dock::health::{check_heartbeat, health_url, heartbeat_contents, HealthError};
use unspace_dock::numbers::IntErrorKind;

#[test]
fn write_heartbeat_creates_parent_and_timestamp() {
    let now = std::time::SystemTime::now()
        .duration_since(std::time::UNIX_EPOCH)
        .unwrap()
        .as_secs();
    let timestamp: u64 = heartbeat_contents(now).parse().unwrap();
    assert!(timestamp > 0);
    assert_eq!(timestamp, now);
}

#[test]
fn heartbeat_written_then_checked_is_fresh_until_max_age() {
    let written = heartbeat_contents(1_000);
    assert_eq!(check_heartbeat(&written, 1_120, 120), Ok(()));
    assert_eq!(
        check_heartbeat(&written, 1_121, 120),
        Err(HealthError::Stale { age: 121, max_age: 120 })
    );
    assert_eq!(check_heartbeat(&written, 10, 120), Ok(()));
}

#[test]
fn heartbeat_check_refuses_text_that_is_not_a_timestamp() {
    assert_eq!(
        check_heartbeat("  ", 5, 120),
        Err(HealthError::NotATimestamp(IntErrorKind::Empty))
    );
    assert_eq!(
        check_heartbeat("12a", 5, 120),
        Err(HealthError::NotATimestamp(IntErrorKind::InvalidDigit))
    );
    assert_eq!(
        check_heartbeat("99999999999999999999", 5, 120),
        Err(HealthError::NotATimestamp(IntErrorKind::PosOverflow))
    );
    assert_eq!(check_heartbeat(" 42\n", 50, 120), Ok(()));
}

#[test]
fn health_messages_and_url() {
    assert_eq!(
        HealthError::Stale { age: 121, max_age: 120 }.message(),
        "heartbeat is stale (121s old, max 120s)"
    );
    assert_eq!(
        HealthError::NotATimestamp(IntErrorKind::InvalidDigit).message(),
        "heartbeat file does not contain a Unix timestamp: invalid digit found in string"
    );
    assert_eq!(health_url("https://api.unspace.com"), "https://api.unspace.com/health");
}
