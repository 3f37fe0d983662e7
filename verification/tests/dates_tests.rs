use octotrack::{filter_events_for_last_year, parse_u32_or_zero, year_of_date_prefix, Event, EventKind};

#[test]
fn year_is_read_from_a_valid_prefix() {
    assert_eq!(year_of_date_prefix("2026-03-01T10:00:00Z"), Some(2026));
    assert_eq!(year_of_date_prefix("2026-03-01"), Some(2026));
    assert_eq!(year_of_date_prefix("2024-02-29T00:00:00Z"), Some(2024));
    assert_eq!(year_of_date_prefix("0001-01-01rest does not matter"), Some(1));
}

#[test]
fn malformed_dates_are_rejected() {
    assert_eq!(year_of_date_prefix(""), None);
    assert_eq!(year_of_date_prefix("2026-03-0"), None);
    assert_eq!(year_of_date_prefix("2026-3-01X"), None);
    assert_eq!(year_of_date_prefix("2026/03/01"), None);
    assert_eq!(year_of_date_prefix("2026-13-01"), None);
    assert_eq!(year_of_date_prefix("2026-00-10"), None);
    assert_eq!(year_of_date_prefix("2026-04-31"), None);
    // 2026 is not a leap year; 2024 is.
    assert_eq!(year_of_date_prefix("2026-02-29"), None);
    assert_eq!(year_of_date_prefix("yyyy-mm-dd"), None);
}

fn ev(created_at: Option<&str>) -> Event {
    Event {
        kind: Some(EventKind::Push),
        created_at: created_at.map(|s| s.to_string()),
        repo_name: None,
    }
}

#[test]
fn year_filter_keeps_exactly_the_matching_year() {
    let events = vec![
        ev(Some("2026-01-01T00:00:00Z")),
        ev(Some("2025-12-31T23:59:59Z")),
        ev(Some("not a date")),
        ev(None),
        ev(Some("2026-07-15T12:00:00Z")),
    ];
    let kept = filter_events_for_last_year(&events, 2026);
    assert_eq!(kept.len(), 2);
    assert_eq!(kept[0].created_at.as_deref(), Some("2026-01-01T00:00:00Z"));
    assert_eq!(kept[1].created_at.as_deref(), Some("2026-07-15T12:00:00Z"));
    // Nothing survives a year with no events.
    assert_eq!(filter_events_for_last_year(&events, 1999).len(), 0);
}

#[test]
fn streak_numbers_parse_or_fall_back_to_zero() {
    assert_eq!(parse_u32_or_zero("42"), 42);
    assert_eq!(parse_u32_or_zero("  17\n"), 17);
    // An optional leading plus sign, as the standard unsigned parse takes it.
    assert_eq!(parse_u32_or_zero("+5"), 5);
    assert_eq!(parse_u32_or_zero(" +4294967295 "), u32::MAX);
    assert_eq!(parse_u32_or_zero("+"), 0);
    assert_eq!(parse_u32_or_zero("++5"), 0);
    assert_eq!(parse_u32_or_zero("5+"), 0);
    // The trim drops all Unicode white space, not just ASCII blanks.
    assert_eq!(parse_u32_or_zero("\u{a0}7\u{2003}"), 7);
    assert_eq!(parse_u32_or_zero("\u{3000}+8\u{2028}"), 8);
    assert_eq!(parse_u32_or_zero("0"), 0);
    assert_eq!(parse_u32_or_zero(""), 0);
    assert_eq!(parse_u32_or_zero("   "), 0);
    assert_eq!(parse_u32_or_zero("12 3"), 0);
    assert_eq!(parse_u32_or_zero("-5"), 0);
    assert_eq!(parse_u32_or_zero("4294967295"), u32::MAX);
    assert_eq!(parse_u32_or_zero("4294967296"), 0);
    assert_eq!(parse_u32_or_zero("999999999999999999999"), 0);
}
