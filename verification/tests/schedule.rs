use awsome::schedule::{minutes_until, minutes_until_next, ClockTime};

#[test]
fn rejects_invalid_time_strings() {
    for bad in ["25:00", "abc", "18:60", "18", "", "1830"] {
        assert!(
            minutes_until_next(bad).is_err(),
            "expected error for input {bad:?}"
        );
    }
}

#[test]
fn parses_valid_time_and_returns_sane_minutes() {
    let (minutes, target) = minutes_until_next("18:30").unwrap();
    assert_eq!(target, ClockTime { hour: 18, minute: 30 });
    // The next occurrence is always within the coming 24 hours, and
    // the result is clamped to at least 1 minute.
    assert!(
        (1..=1440).contains(&minutes),
        "minutes out of expected range: {minutes}"
    );
}

#[test]
fn minutes_is_at_least_one() {
    // Regardless of the target time, the clamp guarantees >= 1.
    for t in ["00:00", "12:00", "23:59"] {
        let (minutes, _) = minutes_until_next(t).unwrap();
        assert!(
            minutes >= 1,
            "minutes should be >= 1 for {t}, got {minutes}"
        );
    }
}

#[test]
fn single_digit_hours_parse_and_format_padded() {
    let (_, target) = minutes_until_next("7:05").unwrap();
    assert_eq!(target, ClockTime { hour: 7, minute: 5 });
    assert_eq!(target.to_string(), "07:05");
    let err = minutes_until_next("7h").unwrap_err();
    assert_eq!(
        err.message(),
        "invalid time '7h', expected 24-hour HH:MM (e.g. 18:30)"
    );
}

#[test]
fn minutes_until_counts_to_today_or_tomorrow() {
    let t = ClockTime { hour: 18, minute: 30 };
    // 18:00:00 -> 30 minutes later today.
    assert_eq!(minutes_until(t, 18 * 3600, 0), 30);
    // Exactly at the target: the next one is tomorrow.
    assert_eq!(minutes_until(t, 18 * 3600 + 30 * 60, 0), 1440);
    // 30.5 seconds before: truncated to zero whole minutes, clamped to one.
    assert_eq!(minutes_until(t, 18 * 3600 + 29 * 60 + 29, 500_000_000), 1);
    // 19:00 -> 23 hours 30 minutes.
    assert_eq!(minutes_until(t, 19 * 3600, 0), 1410);
    // A leap second at 23:59:60.5 before midnight: clamped to one.
    let midnight = ClockTime { hour: 0, minute: 0 };
    assert_eq!(minutes_until(midnight, 86399, 1_500_000_000), 1);
    assert_eq!(minutes_until(midnight, 0, 1), 1439);
}

#[test]
fn time_strings_follow_the_hh_mm_grammar() {
    let (_, t) = minutes_until_next(" 7: 05").unwrap();
    assert_eq!(t, ClockTime { hour: 7, minute: 5 });
    let (_, t) = minutes_until_next("7:5").unwrap();
    assert_eq!(t, ClockTime { hour: 7, minute: 5 });
    for bad in ["18:30 ", "123:00", "18 :30", "18:", ":30", "18:300", "+1:00"] {
        assert!(minutes_until_next(bad).is_err(), "expected error for input {bad:?}");
    }
}
