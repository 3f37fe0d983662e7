//! Typed event records decoded from the REST payloads, and the calendar-year
//! filter that the user-event pages run through.

use vstd::prelude::*;

use crate::dates::parsed_year;
use crate::json::{json_arr, json_get, json_get_str, JsonValue};

verus! {

/// The event categories the summary distinguishes.
#[derive(Clone, Copy, PartialEq, Eq, Structural, Debug)]
pub enum EventKind {
    Push,
    PullRequest,
    Issue,
    Star,
    Other,
}

/// One activity event: its category, its ISO-8601 timestamp, and the name
/// of the repository it belongs to. Each field is absent when the payload
/// lacked it.
#[derive(Debug)]
pub struct Event {
    pub kind: Option<EventKind>,
    pub created_at: Option<String>,
    pub repo_name: Option<String>,
}

/// The mathematical value of an `Event`, with text as character sequences.
pub struct EventView {
    pub kind: Option<EventKind>,
    pub created_at: Option<Seq<char>>,
    pub repo_name: Option<Seq<char>>,
}

impl View for Event {
    type V = EventView;

    open spec fn view(&self) -> EventView {
        EventView {
            kind: self.kind,
            created_at: self.created_at.deep_view(),
            repo_name: self.repo_name.deep_view(),
        }
    }
}

impl DeepView for Event {
    type V = EventView;

    open spec fn deep_view(&self) -> EventView {
        self.view()
    }
}

impl Clone for Event {
    fn clone(&self) -> (r: Event)
        ensures
            r@ == self@,
    {
        Event {
            kind: self.kind,
            created_at: match &self.created_at {
                Some(s) => Some(s.clone()),
                None => None,
            },
            repo_name: match &self.repo_name {
                Some(s) => Some(s.clone()),
                None => None,
            },
        }
    }
}

/// The category a `type` field names.
pub open spec fn kind_of_type_name(t: Seq<char>) -> EventKind {
    if t == "PushEvent"@ {
        EventKind::Push
    } else if t == "PullRequestEvent"@ {
        EventKind::PullRequest
    } else if t == "IssuesEvent"@ {
        EventKind::Issue
    } else if t == "WatchEvent"@ {
        EventKind::Star
    } else {
        EventKind::Other
    }
}

pub fn classify_type_name(t: &str) -> (r: EventKind)
    ensures
        r == kind_of_type_name(t@),
{
    if crate::json::str_eq(t, "PushEvent") {
        EventKind::Push
    } else if crate::json::str_eq(t, "PullRequestEvent") {
        EventKind::PullRequest
    } else if crate::json::str_eq(t, "IssuesEvent") {
        EventKind::Issue
    } else if crate::json::str_eq(t, "WatchEvent") {
        EventKind::Star
    } else {
        EventKind::Other
    }
}

/// The event a payload object describes: `type` names the category,
/// `created_at` the timestamp, `repo.name` the repository.
pub open spec fn spec_event_of(j: JsonValue) -> EventView {
    EventView {
        kind: match json_get_str(j, "type"@) {
            Some(t) => Some(kind_of_type_name(t)),
            None => None,
        },
        created_at: json_get_str(j, "created_at"@),
        repo_name: match json_get(j, "repo"@) {
            Some(r) => json_get_str(r, "name"@),
            None => None,
        },
    }
}

/// Each element of a payload array, decoded in order.
pub open spec fn spec_events_of_seq(items: Seq<JsonValue>) -> Seq<EventView>
    decreases items.len(),
{
    if items.len() == 0 {
        Seq::empty()
    } else {
        spec_events_of_seq(items.drop_last()).push(spec_event_of(items.last()))
    }
}

/// The events a page body holds: each element of the array, decoded; a
/// body that is not an array holds no events.
pub open spec fn spec_decode_events(j: JsonValue) -> Seq<EventView> {
    match json_arr(j) {
        Some(items) => spec_events_of_seq(items),
        None => Seq::empty(),
    }
}

/// Element-wise reading of `spec_events_of_seq`.
pub proof fn lemma_events_of_seq(items: Seq<JsonValue>)
    ensures
        spec_events_of_seq(items).len() == items.len(),
        forall|i: int|
            0 <= i < items.len() ==> #[trigger] spec_events_of_seq(items)[i] == spec_event_of(
                items[i],
            ),
    decreases items.len(),
{
    if items.len() > 0 {
        lemma_events_of_seq(items.drop_last());
    }
}

pub fn decode_event(j: &JsonValue) -> (r: Event)
    ensures
        r@ == spec_event_of(*j),
{
    let kind = match j.get_string("type") {
        Some(t) => Some(classify_type_name(t.as_str())),
        None => None,
    };
    let created_at = j.get_string("created_at");
    let repo_name = match j.get("repo") {
        Some(r) => r.get_string("name"),
        None => None,
    };
    Event { kind, created_at, repo_name }
}

/// Decodes a page body into its events, in page order.
pub fn decode_events(j: &JsonValue) -> (r: Vec<Event>)
    ensures
        r.deep_view() == spec_decode_events(*j),
{
    let mut out: Vec<Event> = Vec::new();
    match j.array_value() {
        Some(items) => {
            let n = items.len();
            let mut i: usize = 0;
            while i < n
                invariant
                    i <= n,
                    n == items@.len(),
                    json_arr(*j) == Some(items@),
                    out.deep_view() =~= spec_events_of_seq(items@.take(i as int)),
                decreases n - i,
            {
                let ghost pre = out.deep_view();
                let ev = decode_event(&items[i]);
                out.push(ev);
                proof {
                    assert(out.deep_view() =~= pre.push(spec_event_of(items@[i as int])));
                    assert(items@.take(i + 1).drop_last() =~= items@.take(i as int));
                    assert(items@.take(i + 1).last() == items@[i as int]);
                }
                i = i + 1;
            }
            proof {
                assert(items@.take(n as int) =~= items@);
            }
            out
        },
        None => out,
    }
}

/// Holds iff the event's timestamp carries a well-formed date whose year is
/// `y`: an absent or malformed date never qualifies.
pub open spec fn event_in_year(e: EventView, y: u32) -> bool {
    match e.created_at {
        Some(c) => parsed_year(c) == Some(y),
        None => false,
    }
}

/// The subsequence of `s` whose events fall in year `y`, order kept.
pub open spec fn spec_filter_year(s: Seq<EventView>, y: u32) -> Seq<EventView>
    decreases s.len(),
{
    if s.len() == 0 {
        Seq::empty()
    } else {
        let rest = spec_filter_year(s.drop_last(), y);
        if event_in_year(s.last(), y) {
            rest.push(s.last())
        } else {
            rest
        }
    }
}

/// The year filter retains an event iff its `created_at` date's calendar
/// year equals the given year; it coincides with `Seq::filter` under the
/// `event_in_year` predicate, so membership is exactly the predicate.
pub proof fn lemma_year_filter_iff(s: Seq<EventView>, y: u32)
    ensures
        spec_filter_year(s, y) == s.filter(|e: EventView| event_in_year(e, y)),
    decreases s.len(),
{
    reveal(Seq::filter);
    if s.len() == 0 {
        assert(spec_filter_year(s, y) =~= s.filter(|e: EventView| event_in_year(e, y)));
    } else {
        lemma_year_filter_iff(s.drop_last(), y);
    }
}

/// Keeps the events of `events` whose date falls in `current_year`,
/// preserving order.
pub fn filter_events_for_last_year(events: &Vec<Event>, current_year: u32) -> (r: Vec<Event>)
    ensures
        r.deep_view() == spec_filter_year(events.deep_view(), current_year),
{
    let mut out: Vec<Event> = Vec::new();
    let n = events.len();
    let mut i: usize = 0;
    while i < n
        invariant
            i <= n,
            n == events@.len(),
            out.deep_view() =~= spec_filter_year(events.deep_view().take(i as int), current_year),
        decreases n - i,
    {
        let e = &events[i];
        let keep = match &e.created_at {
            Some(c) => match crate::dates::year_of_date_prefix(c.as_str()) {
                Some(y) => y == current_year,
                None => false,
            },
            None => false,
        };
        proof {
            assert(events.deep_view().take(i + 1).drop_last() =~= events.deep_view().take(
                i as int,
            ));
            assert(events.deep_view().take(i + 1).last() == events@[i as int]@);
            assert(keep == event_in_year(events@[i as int]@, current_year));
        }
        if keep {
            out.push(e.clone());
        }
        proof {
            assert(out.deep_view() =~= spec_filter_year(
                events.deep_view().take(i + 1),
                current_year,
            ));
        }
        i = i + 1;
    }
    proof {
        assert(events.deep_view().take(n as int) =~= events.deep_view());
    }
    out
}

} // verus!
