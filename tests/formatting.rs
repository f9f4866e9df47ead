use bayesian_ssh::format::{
    decimal_count, decimal_string, format_duration_short, format_duration, format_status, truncate,
};
use bayesian_ssh::models::SessionStatus;

#[test]
fn decimal_forms() {
    assert_eq!(decimal_string(0), "0");
    assert_eq!(decimal_string(-42), "-42");
    assert_eq!(decimal_string(i64::MIN), "-9223372036854775808");
    assert_eq!(decimal_string(i64::MAX), "9223372036854775807");
    assert_eq!(decimal_count(1234), "1234");
}

#[test]
fn short_durations() {
    assert_eq!(format_duration_short(42), "42s");
    assert_eq!(format_duration_short(59), "59s");
    assert_eq!(format_duration_short(60), "1m 0s");
    assert_eq!(format_duration_short(185), "3m 5s");
    assert_eq!(format_duration_short(7800), "2h 10m");
    assert_eq!(format_duration_short(-5), "-5s");
}

#[test]
fn elapsed_phrases() {
    assert_eq!(format_duration(10), "just now");
    assert_eq!(format_duration(60), "1 minute ago");
    assert_eq!(format_duration(150), "2 minutes ago");
    assert_eq!(format_duration(3600), "1 hour ago");
    assert_eq!(format_duration(7300), "2 hours ago");
    assert_eq!(format_duration(90000), "1 day ago");
    assert_eq!(format_duration(200000), "2 days ago");
    assert_eq!(format_duration(-100), "just now");
}

#[test]
fn truncation_by_bytes() {
    assert_eq!(truncate("abc", 5), "abc");
    assert_eq!(truncate("abcde", 5), "abcde");
    assert_eq!(truncate("hello world", 5), "hell\u{2026}");
    assert_eq!(truncate("hello", 1), "\u{2026}");
    assert_eq!(truncate("", 0), "");
    assert_eq!(truncate("\u{e9}\u{e9}\u{e9}", 4), "\u{e9}\u{2026}");
}

#[test]
fn status_labels() {
    assert_eq!(format_status(&SessionStatus::Active), "\u{1f7e2} active");
    assert_eq!(format_status(&SessionStatus::Terminated), "\u{2705} terminated");
    assert_eq!(format_status(&SessionStatus::Starting), "\u{23f3} starting");
    assert_eq!(format_status(&SessionStatus::Disconnected), "\u{1f50c} disconnected");
    assert_eq!(
        format_status(&SessionStatus::Error("connection refused by remote host".to_string())),
        "\u{274c} error: connection refused \u{2026}"
    );
}
