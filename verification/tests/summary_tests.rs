use octotrack::{
    contributions_per_month, month_streak, summarize_activity, Date, Event, EventKind,
};

fn ev(kind: Option<EventKind>, created_at: Option<&str>) -> Event {
    Event { kind, created_at: created_at.map(|s| s.to_string()), repo_name: None }
}

#[test]
fn activity_counts_by_category() {
    let events = vec![
        ev(Some(EventKind::Push), Some("2026-01-10T00:00:00Z")),
        ev(Some(EventKind::Push), Some("2026-01-11T00:00:00Z")),
        ev(Some(EventKind::PullRequest), Some("2026-02-01T00:00:00Z")),
        ev(Some(EventKind::Issue), None),
        ev(Some(EventKind::Star), Some("garbled")),
        ev(Some(EventKind::Other), Some("2026-02-02T00:00:00Z")),
        ev(None, Some("2026-02-03T00:00:00Z")),
    ];
    let s = summarize_activity(&events);
    assert_eq!(s.commits, 2);
    assert_eq!(s.pull_requests, 1);
    assert_eq!(s.issues, 1);
    assert_eq!(s.stars, 1);
    // Monthly tallies need both a category and a parsable date.
    assert_eq!(s.monthly.len(), 12);
    assert_eq!(s.monthly[0], 2);
    assert_eq!(s.monthly[1], 2);
    assert_eq!(s.monthly[2..].iter().sum::<usize>(), 0);
}

#[test]
fn per_month_sums_walk_backwards_from_today() {
    // Day 0 is 2026-03-02, day 1 is 2026-03-01, day 2 is 2026-02-28
    // (2026 is not a leap year), day 3 is 2026-02-27.
    let today = Date { year: 2026, month: 3, day: 2 };
    let counts = vec![1, 2, 4, 8];
    let totals = contributions_per_month(&today, &counts);
    assert_eq!(totals.len(), 12);
    assert_eq!(totals[2], 3); // March
    assert_eq!(totals[1], 12); // February
    assert_eq!(totals.iter().sum::<u64>(), 15);
}

#[test]
fn month_boundary_and_leap_year_stepping() {
    // Day 2 from 2024-03-01 lands on 2024-02-29: 2024 is a leap year.
    let today = Date { year: 2024, month: 3, day: 1 };
    let counts = vec![0, 0, 5];
    let totals = contributions_per_month(&today, &counts);
    assert_eq!(totals[1], 5); // February picked up the leap day.
    // From 2026-01-01, day 1 lands on 2025-12-31.
    let new_year = Date { year: 2026, month: 1, day: 1 };
    let totals = contributions_per_month(&new_year, &vec![1, 3]);
    assert_eq!(totals[0], 1);
    assert_eq!(totals[11], 3);
}

#[test]
fn month_streak_counts_active_months() {
    let mut totals = vec![0u64; 12];
    totals[1] = 5;
    totals[4] = 1;
    totals[11] = 9;
    assert_eq!(month_streak(&totals), 3);
    assert_eq!(month_streak(&vec![0u64; 12]), 0);
}
