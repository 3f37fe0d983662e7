//! The pure computations behind the terminal summary: counting events by
//! category, the monthly histograms, and the month-streak figure.

use vstd::prelude::*;

use crate::dates::{date_minus, date_wf, parse_date_prefix, parsed_date, Date};
use crate::events::{Event, EventKind, EventView};

verus! {

/// The counters of the activity overview, plus how many counted events
/// fall in each calendar month (index `m` holds month `m + 1`).
pub struct ActivitySummary {
    pub commits: usize,
    pub pull_requests: usize,
    pub issues: usize,
    pub stars: usize,
    pub monthly: Vec<usize>,
}

/// How many events of `s` carry the category `k`.
pub open spec fn count_kind(s: Seq<EventView>, k: EventKind) -> int
    decreases s.len(),
{
    if s.len() == 0 {
        0
    } else {
        count_kind(s.drop_last(), k) + if s.last().kind == Some(k) {
            1int
        } else {
            0int
        }
    }
}

/// The month an event is tallied under: only events with a category and a
/// well-formed date are, as the activity display reckons it.
pub open spec fn spec_event_month(e: EventView) -> Option<u32> {
    match e.kind {
        Some(_) => match e.created_at {
            Some(c) => match parsed_date(c) {
                Some(d) => Some(d.month),
                None => None,
            },
            None => None,
        },
        None => None,
    }
}

/// How many events of `s` are tallied under month `m`.
pub open spec fn count_month(s: Seq<EventView>, m: int) -> int
    decreases s.len(),
{
    if s.len() == 0 {
        0
    } else {
        count_month(s.drop_last(), m) + if spec_event_month(s.last()) == Some(m as u32) {
            1int
        } else {
            0int
        }
    }
}

/// Counts the events of each category, and the counted events per month.
pub fn summarize_activity(events: &Vec<Event>) -> (r: ActivitySummary)
    ensures
        r.commits as int == count_kind(events.deep_view(), EventKind::Push),
        r.pull_requests as int == count_kind(events.deep_view(), EventKind::PullRequest),
        r.issues as int == count_kind(events.deep_view(), EventKind::Issue),
        r.stars as int == count_kind(events.deep_view(), EventKind::Star),
        r.monthly@.len() == 12,
        forall|m: int| 1 <= m <= 12 ==> r.monthly@[m - 1] as int == count_month(
            events.deep_view(),
            m,
        ),
{
    let mut commits: usize = 0;
    let mut pull_requests: usize = 0;
    let mut issues: usize = 0;
    let mut stars: usize = 0;
    let mut monthly: Vec<usize> = Vec::new();
    let mut z: usize = 0;
    while z < 12
        invariant
            z <= 12,
            monthly@.len() == z,
            forall|k: int| 0 <= k < z ==> monthly@[k] == 0,
        decreases 12 - z,
    {
        monthly.push(0);
        z = z + 1;
    }
    let n = events.len();
    let mut i: usize = 0;
    proof {
        assert(events.deep_view().take(0).len() == 0);
    }
    while i < n
        invariant
            i <= n,
            n == events@.len(),
            commits <= i && commits as int == count_kind(
                events.deep_view().take(i as int),
                EventKind::Push,
            ),
            pull_requests <= i && pull_requests as int == count_kind(
                events.deep_view().take(i as int),
                EventKind::PullRequest,
            ),
            issues <= i && issues as int == count_kind(
                events.deep_view().take(i as int),
                EventKind::Issue,
            ),
            stars <= i && stars as int == count_kind(
                events.deep_view().take(i as int),
                EventKind::Star,
            ),
            monthly@.len() == 12,
            forall|k: int| 0 <= k < 12 ==> monthly@[k] <= i,
            forall|m: int|
                1 <= m <= 12 ==> monthly@[m - 1] as int == count_month(
                    events.deep_view().take(i as int),
                    m,
                ),
        decreases n - i,
    {
        let e = &events[i];
        proof {
            assert(events.deep_view().take(i + 1).drop_last() =~= events.deep_view().take(
                i as int,
            ));
            assert(events.deep_view().take(i + 1).last() == events@[i as int]@);
        }
        match e.kind {
            Some(EventKind::Push) => {
                commits = commits + 1;
            },
            Some(EventKind::PullRequest) => {
                pull_requests = pull_requests + 1;
            },
            Some(EventKind::Issue) => {
                issues = issues + 1;
            },
            Some(EventKind::Star) => {
                stars = stars + 1;
            },
            Some(EventKind::Other) => {},
            None => {},
        }
        let month_opt: Option<u32> = if e.kind.is_some() {
            match &e.created_at {
                Some(c) => match parse_date_prefix(c.as_str()) {
                    Some(d) => {
                        proof {
                            assert(date_wf(d));
                        }
                        Some(d.month)
                    },
                    None => None,
                },
                None => None,
            }
        } else {
            None
        };
        proof {
            assert(month_opt == spec_event_month(events@[i as int]@));
        }
        match month_opt {
            Some(m) => {
                let idx = (m - 1) as usize;
                let v = monthly[idx];
                monthly.set(idx, v + 1);
            },
            None => {},
        }
        proof {
            assert forall|m: int|
                #![trigger count_month(events.deep_view().take(i + 1), m)]
                1 <= m <= 12 implies monthly@[m - 1] as int == count_month(
                events.deep_view().take(i + 1),
                m,
            ) by {
                assert(count_month(events.deep_view().take(i + 1), m) == count_month(
                    events.deep_view().take(i as int),
                    m,
                ) + if spec_event_month(events@[i as int]@) == Some(m as u32) {
                    1int
                } else {
                    0int
                });
            }
        }
        i = i + 1;
    }
    proof {
        assert(events.deep_view().take(n as int) =~= events.deep_view());
    }
    ActivitySummary { commits, pull_requests, issues, stars, monthly }
}

/// The sum of the counts whose day — day index `i` being `i` days before
/// `today` — falls in calendar month `m`.
pub open spec fn month_sum(today: Date, counts: Seq<u32>, m: int) -> int
    decreases counts.len(),
{
    if counts.len() == 0 {
        0
    } else {
        month_sum(today, counts.drop_last(), m) + if date_minus(
            today,
            (counts.len() - 1) as nat,
        ).month == m as u32 {
            counts.last() as int
        } else {
            0int
        }
    }
}

/// Sums the flattened per-day counts into one total per calendar month,
/// walking backwards one day at a time from `today`, as the monthly
/// contribution display groups them.
pub fn contributions_per_month(today: &Date, counts: &Vec<u32>) -> (r: Vec<u64>)
    requires
        date_wf(*today),
        counts@.len() <= 0x1_0000_0000,
    ensures
        r@.len() == 12,
        forall|m: int| 1 <= m <= 12 ==> r@[m - 1] as int == month_sum(*today, counts@, m),
{
    let mut totals: Vec<u64> = Vec::new();
    let mut z: usize = 0;
    while z < 12
        invariant
            z <= 12,
            totals@.len() == z,
            forall|k: int| 0 <= k < z ==> totals@[k] == 0,
        decreases 12 - z,
    {
        totals.push(0);
        z = z + 1;
    }
    let n = counts.len();
    let mut current = Date { year: today.year, month: today.month, day: today.day };
    let mut i: usize = 0;
    while i < n
        invariant
            i <= n,
            n == counts@.len(),
            n <= 0x1_0000_0000,
            date_wf(*today),
            date_wf(current),
            current == date_minus(*today, i as nat),
            totals@.len() == 12,
            forall|k: int| 0 <= k < 12 ==> totals@[k] as int <= (i as int) * 0xffff_ffff,
            forall|m: int|
                1 <= m <= 12 ==> totals@[m - 1] as int == month_sum(*today, counts@.take(i as int), m),
        decreases n - i,
    {
        let c = counts[i] as u64;
        let idx = (current.month - 1) as usize;
        let v = totals[idx];
        proof {
            assert(v as int <= (i as int) * 0xffff_ffff);
            assert((i as int) * 0xffff_ffff + 0xffff_ffff == (i as int + 1) * 0xffff_ffff)
                by (nonlinear_arith);
            assert((i as int + 1) * 0xffff_ffff <= 0x1_0000_0000 * 0xffff_ffff)
                by (nonlinear_arith)
                requires
                    i as int + 1 <= 0x1_0000_0000,
            ;
        }
        totals.set(idx, v + c);
        proof {
            assert(counts@.take(i + 1).drop_last() =~= counts@.take(i as int));
            assert(counts@.take(i + 1).last() == counts@[i as int]);
            assert forall|m: int|
                #![trigger month_sum(*today, counts@.take(i + 1), m)]
                1 <= m <= 12 implies totals@[m - 1] as int == month_sum(
                *today,
                counts@.take(i + 1),
                m,
            ) by {
                assert(counts@.take(i + 1).len() - 1 == i as int);
                assert(month_sum(*today, counts@.take(i + 1), m) == month_sum(
                    *today,
                    counts@.take(i as int),
                    m,
                ) + if date_minus(*today, i as nat).month == m as u32 {
                    counts@[i as int] as int
                } else {
                    0int
                });
            }
        }
        current = crate::dates::prev_date(&current);
        i = i + 1;
    }
    proof {
        assert(counts@.take(n as int) =~= counts@);
    }
    totals
}

/// How many of the monthly totals are positive.
pub open spec fn count_active_months(totals: Seq<u64>) -> int
    decreases totals.len(),
{
    if totals.len() == 0 {
        0
    } else {
        count_active_months(totals.drop_last()) + if totals.last() > 0 {
            1int
        } else {
            0int
        }
    }
}

/// The month-streak figure of the summary. The display walks the months
/// in order but skips those without contributions instead of breaking the
/// run, so the longest run it can see is the number of months with any.
pub fn month_streak(totals: &Vec<u64>) -> (r: usize)
    requires
        totals@.len() == 12,
    ensures
        r as int == count_active_months(totals@),
{
    let mut r: usize = 0;
    let n = totals.len();
    let mut i: usize = 0;
    proof {
        assert(totals@.take(0).len() == 0);
    }
    while i < n
        invariant
            i <= n,
            n == totals@.len(),
            r <= i,
            r as int == count_active_months(totals@.take(i as int)),
        decreases n - i,
    {
        proof {
            assert(totals@.take(i + 1).drop_last() =~= totals@.take(i as int));
            assert(totals@.take(i + 1).last() == totals@[i as int]);
        }
        if totals[i] > 0 {
            r = r + 1;
        }
        i = i + 1;
    }
    proof {
        assert(totals@.take(n as int) =~= totals@);
    }
    r
}

} // verus!
