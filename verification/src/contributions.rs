//! The contribution calendar: the GraphQL query text, the decoding of the
//! response's nested calendar, and its flattening into one per-day count
//! sequence.

use vstd::prelude::*;

use crate::json::{
    json_arr, json_get, json_get_str, json_of, json_u64, parse_json, JsonValue,
};

verus! {

/// One day of the contribution calendar.
pub struct ContributionDay {
    pub date: String,
    pub contribution_count: u32,
}

pub struct ContributionDayView {
    pub date: Seq<char>,
    pub contribution_count: u32,
}

impl DeepView for ContributionDay {
    type V = ContributionDayView;

    open spec fn deep_view(&self) -> ContributionDayView {
        ContributionDayView { date: self.date@, contribution_count: self.contribution_count }
    }
}

/// One week: seven days in order.
pub struct ContributionWeek {
    pub contribution_days: Vec<ContributionDay>,
}

impl DeepView for ContributionWeek {
    type V = Seq<ContributionDayView>;

    open spec fn deep_view(&self) -> Seq<ContributionDayView> {
        self.contribution_days.deep_view()
    }
}

/// The calendar: weeks in order, oldest first.
pub struct ContributionCalendar {
    pub weeks: Vec<ContributionWeek>,
}

impl DeepView for ContributionCalendar {
    type V = Seq<Seq<ContributionDayView>>;

    open spec fn deep_view(&self) -> Seq<Seq<ContributionDayView>> {
        self.weeks.deep_view()
    }
}

pub struct ContributionsCollection {
    pub contribution_calendar: ContributionCalendar,
}

impl DeepView for ContributionsCollection {
    type V = Seq<Seq<ContributionDayView>>;

    open spec fn deep_view(&self) -> Seq<Seq<ContributionDayView>> {
        self.contribution_calendar.deep_view()
    }
}

pub struct User {
    pub contributions_collection: ContributionsCollection,
}

impl DeepView for User {
    type V = Seq<Seq<ContributionDayView>>;

    open spec fn deep_view(&self) -> Seq<Seq<ContributionDayView>> {
        self.contributions_collection.deep_view()
    }
}

/// Why a contribution fetch failed: an unparsable or ill-shaped response,
/// the response's own `errors` array, or a well-formed response that lacks
/// the `data.user` payload.
#[derive(Debug)]
pub enum ContribError {
    Decode,
    Upstream { errors: Vec<JsonValue> },
    Format,
}

pub enum ContribErrorView {
    Decode,
    Upstream { errors: Seq<JsonValue> },
    Format,
}

impl DeepView for ContribError {
    type V = ContribErrorView;

    open spec fn deep_view(&self) -> ContribErrorView {
        match self {
            ContribError::Decode => ContribErrorView::Decode,
            ContribError::Upstream { errors } => ContribErrorView::Upstream { errors: errors@ },
            ContribError::Format => ContribErrorView::Format,
        }
    }
}

/// A day object decodes when it carries a string `date` and a
/// `contributionCount` that fits an unsigned 32-bit integer.
pub open spec fn spec_decode_day(j: JsonValue) -> Option<ContributionDayView> {
    match json_get_str(j, "date"@) {
        Some(date) => match json_get(j, "contributionCount"@) {
            Some(c) => match json_u64(c) {
                Some(n) => if n <= u32::MAX {
                    Some(ContributionDayView { date, contribution_count: n as u32 })
                } else {
                    None
                },
                None => None,
            },
            None => None,
        },
        None => None,
    }
}

/// All days of a week's array decode, or the week does not.
pub open spec fn spec_decode_days(items: Seq<JsonValue>) -> Option<Seq<ContributionDayView>>
    decreases items.len(),
{
    if items.len() == 0 {
        Some(Seq::empty())
    } else {
        match spec_decode_days(items.drop_last()) {
            Some(pre) => match spec_decode_day(items.last()) {
                Some(d) => Some(pre.push(d)),
                None => None,
            },
            None => None,
        }
    }
}

pub open spec fn spec_decode_week(j: JsonValue) -> Option<Seq<ContributionDayView>> {
    match json_get(j, "contributionDays"@) {
        Some(ds) => match json_arr(ds) {
            Some(items) => spec_decode_days(items),
            None => None,
        },
        None => None,
    }
}

pub open spec fn spec_decode_weeks(items: Seq<JsonValue>) -> Option<Seq<Seq<ContributionDayView>>>
    decreases items.len(),
{
    if items.len() == 0 {
        Some(Seq::empty())
    } else {
        match spec_decode_weeks(items.drop_last()) {
            Some(pre) => match spec_decode_week(items.last()) {
                Some(w) => Some(pre.push(w)),
                None => None,
            },
            None => None,
        }
    }
}

/// The calendar inside a `user` object, down the
/// `contributionsCollection.contributionCalendar.weeks` path.
pub open spec fn spec_decode_user(u: JsonValue) -> Option<Seq<Seq<ContributionDayView>>> {
    match json_get(u, "contributionsCollection"@) {
        Some(cc) => match json_get(cc, "contributionCalendar"@) {
            Some(cal) => match json_get(cal, "weeks"@) {
                Some(ws) => match json_arr(ws) {
                    Some(items) => spec_decode_weeks(items),
                    None => None,
                },
                None => None,
            },
            None => None,
        },
        None => None,
    }
}

fn decode_day(j: &JsonValue) -> (r: Option<ContributionDay>)
    ensures
        match r {
            Some(d) => spec_decode_day(*j) == Some(d.deep_view()),
            None => spec_decode_day(*j) is None,
        },
{
    let date = match j.get_string("date") {
        Some(d) => d,
        None => {
            return None;
        },
    };
    let n = match j.get("contributionCount") {
        Some(c) => match c.u64_value() {
            Some(n) => n,
            None => {
                return None;
            },
        },
        None => {
            return None;
        },
    };
    if n > 0xffff_ffff {
        return None;
    }
    Some(ContributionDay { date, contribution_count: n as u32 })
}

/// A single undecodable element sinks the whole sequence.
proof fn lemma_decode_days_fail(items: Seq<JsonValue>, i: int)
    requires
        0 <= i < items.len(),
        spec_decode_day(items[i]) is None,
    ensures
        spec_decode_days(items) is None,
    decreases items.len(),
{
    if i < items.len() - 1 {
        assert(items.drop_last()[i] == items[i]);
        lemma_decode_days_fail(items.drop_last(), i);
    }
}

proof fn lemma_decode_weeks_fail(items: Seq<JsonValue>, i: int)
    requires
        0 <= i < items.len(),
        spec_decode_week(items[i]) is None,
    ensures
        spec_decode_weeks(items) is None,
    decreases items.len(),
{
    if i < items.len() - 1 {
        assert(items.drop_last()[i] == items[i]);
        lemma_decode_weeks_fail(items.drop_last(), i);
    }
}

fn decode_days(items: &Vec<JsonValue>) -> (r: Option<Vec<ContributionDay>>)
    ensures
        match r {
            Some(ds) => spec_decode_days(items@) == Some(ds.deep_view()),
            None => spec_decode_days(items@) is None,
        },
{
    let mut out: Vec<ContributionDay> = Vec::new();
    let n = items.len();
    let mut i: usize = 0;
    proof {
        assert(items@.take(0).len() == 0);
        assert(out.deep_view() =~= spec_decode_days(items@.take(0))->Some_0);
    }
    while i < n
        invariant
            i <= n,
            n == items@.len(),
            spec_decode_days(items@.take(i as int)) == Some(out.deep_view()),
        decreases n - i,
    {
        let ghost pre = out.deep_view();
        match decode_day(&items[i]) {
            Some(d) => {
                let ghost dv = d.deep_view();
                out.push(d);
                proof {
                    assert(out.deep_view() =~= pre.push(dv));
                }
            },
            None => {
                proof {
                    lemma_decode_days_fail(items@, i as int);
                }
                return None;
            },
        }
        proof {
            assert(items@.take(i + 1).drop_last() =~= items@.take(i as int));
            assert(items@.take(i + 1).last() == items@[i as int]);
        }
        i = i + 1;
    }
    proof {
        assert(items@.take(n as int) =~= items@);
    }
    Some(out)
}

fn decode_week(j: &JsonValue) -> (r: Option<ContributionWeek>)
    ensures
        match r {
            Some(w) => spec_decode_week(*j) == Some(w.deep_view()),
            None => spec_decode_week(*j) is None,
        },
{
    match j.get("contributionDays") {
        Some(ds) => match ds.array_value() {
            Some(items) => match decode_days(items) {
                Some(days) => Some(ContributionWeek { contribution_days: days }),
                None => None,
            },
            None => None,
        },
        None => None,
    }
}

fn decode_weeks(items: &Vec<JsonValue>) -> (r: Option<Vec<ContributionWeek>>)
    ensures
        match r {
            Some(ws) => spec_decode_weeks(items@) == Some(ws.deep_view()),
            None => spec_decode_weeks(items@) is None,
        },
{
    let mut out: Vec<ContributionWeek> = Vec::new();
    let n = items.len();
    let mut i: usize = 0;
    proof {
        assert(items@.take(0).len() == 0);
        assert(out.deep_view() =~= spec_decode_weeks(items@.take(0))->Some_0);
    }
    while i < n
        invariant
            i <= n,
            n == items@.len(),
            spec_decode_weeks(items@.take(i as int)) == Some(out.deep_view()),
        decreases n - i,
    {
        let ghost pre = out.deep_view();
        match decode_week(&items[i]) {
            Some(w) => {
                let ghost wv = w.deep_view();
                out.push(w);
                proof {
                    assert(out.deep_view() =~= pre.push(wv));
                }
            },
            None => {
                proof {
                    lemma_decode_weeks_fail(items@, i as int);
                }
                return None;
            },
        }
        proof {
            assert(items@.take(i + 1).drop_last() =~= items@.take(i as int));
            assert(items@.take(i + 1).last() == items@[i as int]);
        }
        i = i + 1;
    }
    proof {
        assert(items@.take(n as int) =~= items@);
    }
    Some(out)
}

/// Decodes a `user` payload into the calendar it carries.
pub fn decode_user(u: &JsonValue) -> (r: Option<User>)
    ensures
        match r {
            Some(user) => spec_decode_user(*u) == Some(user.deep_view()),
            None => spec_decode_user(*u) is None,
        },
{
    let cc = match u.get("contributionsCollection") {
        Some(cc) => cc,
        None => {
            return None;
        },
    };
    let cal = match cc.get("contributionCalendar") {
        Some(cal) => cal,
        None => {
            return None;
        },
    };
    let ws = match cal.get("weeks") {
        Some(ws) => ws,
        None => {
            return None;
        },
    };
    let items = match ws.array_value() {
        Some(items) => items,
        None => {
            return None;
        },
    };
    match decode_weeks(items) {
        Some(weeks) => Some(
            User {
                contributions_collection: ContributionsCollection {
                    contribution_calendar: ContributionCalendar { weeks },
                },
            },
        ),
        None => None,
    }
}

/// What a whole GraphQL response body yields. A body that is not JSON, or
/// whose members break the expected shape, is a decode failure; a
/// non-empty `errors` array is the upstream's own failure and wins over
/// any data; an absent or null `data`, or a `data` without `user`, is a
/// format failure; otherwise the result is the flattened count sequence.
pub open spec fn spec_contributions_result(body: Seq<char>) -> Result<Seq<u32>, ContribErrorView> {
    match json_of(body) {
        None => Err(ContribErrorView::Decode),
        Some(j) => match json_get(j, "errors"@) {
            Some(e) => match json_arr(e) {
                Some(es) => if es.len() > 0 {
                    Err(ContribErrorView::Upstream { errors: es })
                } else {
                    spec_data_result(j)
                },
                None => if e is Null {
                    spec_data_result(j)
                } else {
                    Err(ContribErrorView::Decode)
                },
            },
            None => spec_data_result(j),
        },
    }
}

/// The `data.user` part of a response that carried no upstream errors.
pub open spec fn spec_data_result(j: JsonValue) -> Result<Seq<u32>, ContribErrorView> {
    match json_get(j, "data"@) {
        None => Err(ContribErrorView::Format),
        Some(d) => match d {
            JsonValue::Null => Err(ContribErrorView::Format),
            JsonValue::Obj(_) => match json_get(d, "user"@) {
                None => Err(ContribErrorView::Format),
                Some(u) => match spec_decode_user(u) {
                    Some(weeks) => Ok(spec_flat_counts(weeks)),
                    None => Err(ContribErrorView::Decode),
                },
            },
            _ => Err(ContribErrorView::Decode),
        },
    }
}

/// Decodes one GraphQL response body into the flattened per-day counts,
/// or the error the response carries.
pub fn contributions_from_response(body: &str) -> (r: Result<Vec<u32>, ContribError>)
    ensures
        match r {
            Ok(counts) => spec_contributions_result(body@) == Ok::<Seq<u32>, ContribErrorView>(
                counts@,
            ),
            Err(e) => spec_contributions_result(body@) == Err::<Seq<u32>, ContribErrorView>(
                e.deep_view(),
            ),
        },
{
    let j = match parse_json(body) {
        Some(j) => j,
        None => {
            return Err(ContribError::Decode);
        },
    };
    let upstream = match j.get("errors") {
        Some(e) => match e.array_value() {
            Some(es) => es.len() > 0,
            None => match e {
                JsonValue::Null => false,
                _ => {
                    return Err(ContribError::Decode);
                },
            },
        },
        None => false,
    };
    if upstream {
        match j.into_member("errors") {
            Some(e) => match e {
                JsonValue::Arr(es) => Err(ContribError::Upstream { errors: es }),
                _ => Err(ContribError::Decode),
            },
            None => Err(ContribError::Decode),
        }
    } else {
        data_result(&j)
    }
}

fn data_result(j: &JsonValue) -> (r: Result<Vec<u32>, ContribError>)
    ensures
        match r {
            Ok(counts) => spec_data_result(*j) == Ok::<Seq<u32>, ContribErrorView>(counts@),
            Err(e) => spec_data_result(*j) == Err::<Seq<u32>, ContribErrorView>(e.deep_view()),
        },
{
    let d = match j.get("data") {
        Some(d) => d,
        None => {
            return Err(ContribError::Format);
        },
    };
    match d {
        JsonValue::Null => Err(ContribError::Format),
        JsonValue::Obj(_) => {
            let u = match d.get("user") {
                Some(u) => u,
                None => {
                    return Err(ContribError::Format);
                },
            };
            match decode_user(u) {
                Some(user) => Ok(
                    flatten_contributions(&user.contributions_collection.contribution_calendar),
                ),
                None => Err(ContribError::Decode),
            }
        },
        _ => Err(ContribError::Decode),
    }
}

/// The GraphQL query for the contribution calendar of `username` over the
/// window from `from` to `to`, both ISO-8601 timestamps. The username and
/// the timestamps are spliced into the query text unescaped, as the
/// upstream interface expects them; a username holding a quote would
/// malform the query.
pub fn build_contributions_query(username: &str, from: &str, to: &str) -> (r: String)
    ensures
        r@ == "query { user(login: \""@ + username@
            + "\") { contributionsCollection(from: \""@ + from@ + "\", to: \""@ + to@
            + "\") { contributionCalendar { weeks { contributionDays { date contributionCount } } } } } }"@,
{
    let mut s = String::from_str("query { user(login: \"");
    s.append(username);
    s.append("\") { contributionsCollection(from: \"");
    s.append(from);
    s.append("\", to: \"");
    s.append(to);
    s.append(
        "\") { contributionCalendar { weeks { contributionDays { date contributionCount } } } } } }",
    );
    proof {
        assert(s@ =~= "query { user(login: \""@ + username@
            + "\") { contributionsCollection(from: \""@ + from@ + "\", to: \""@ + to@
            + "\") { contributionCalendar { weeks { contributionDays { date contributionCount } } } } } }"@);
    }
    s
}

/// The counts of one week's days, in day order.
pub open spec fn counts_of_week(days: Seq<ContributionDayView>) -> Seq<u32>
    decreases days.len(),
{
    if days.len() == 0 {
        Seq::empty()
    } else {
        counts_of_week(days.drop_last()).push(days.last().contribution_count)
    }
}

/// Week-major, day-minor flattening of the calendar's counts.
pub open spec fn spec_flat_counts(weeks: Seq<Seq<ContributionDayView>>) -> Seq<u32>
    decreases weeks.len(),
{
    if weeks.len() == 0 {
        Seq::empty()
    } else {
        spec_flat_counts(weeks.drop_last()) + counts_of_week(weeks.last())
    }
}

proof fn lemma_counts_of_week(days: Seq<ContributionDayView>)
    ensures
        counts_of_week(days).len() == days.len(),
        forall|j: int|
            0 <= j < days.len() ==> counts_of_week(days)[j] == days[j].contribution_count,
    decreases days.len(),
{
    if days.len() > 0 {
        lemma_counts_of_week(days.drop_last());
    }
}

/// Contribution flattening keeps every count: a calendar of W weeks of 7
/// days each flattens to exactly 7·W entries, in week-major, day-minor
/// order — entry 7·i + j is week i's day j.
pub proof fn lemma_flatten_shape(weeks: Seq<Seq<ContributionDayView>>)
    requires
        forall|i: int| 0 <= i < weeks.len() ==> #[trigger] weeks[i].len() == 7,
    ensures
        spec_flat_counts(weeks).len() == 7 * weeks.len(),
        forall|i: int, j: int|
            0 <= i < weeks.len() && 0 <= j < 7 ==> spec_flat_counts(weeks)[7 * i + j]
                == weeks[i][j].contribution_count,
    decreases weeks.len(),
{
    if weeks.len() > 0 {
        let w = weeks.len() - 1;
        assert(forall|i: int|
            0 <= i < weeks.drop_last().len() ==> #[trigger] weeks.drop_last()[i].len() == 7);
        lemma_flatten_shape(weeks.drop_last());
        lemma_counts_of_week(weeks.last());
        assert forall|i: int, j: int| 0 <= i < weeks.len() && 0 <= j < 7 implies spec_flat_counts(
            weeks,
        )[7 * i + j] == weeks[i][j].contribution_count by {
            if i < w {
                assert(weeks.drop_last()[i] == weeks[i]);
                assert(7 * i + j < 7 * w);
                assert(spec_flat_counts(weeks)[7 * i + j] == spec_flat_counts(weeks.drop_last())[7
                    * i + j]);
            } else {
                assert(spec_flat_counts(weeks)[7 * i + j] == counts_of_week(weeks.last())[7 * i + j
                    - 7 * w]);
            }
        }
    }
}

/// Flattens the calendar into one count per day, week-major.
pub fn flatten_contributions(cal: &ContributionCalendar) -> (r: Vec<u32>)
    ensures
        r@ == spec_flat_counts(cal.deep_view()),
{
    let mut out: Vec<u32> = Vec::new();
    let n = cal.weeks.len();
    let mut i: usize = 0;
    proof {
        assert(cal.weeks.deep_view().take(0).len() == 0);
        assert(out@ =~= spec_flat_counts(cal.weeks.deep_view().take(0)));
    }
    while i < n
        invariant
            i <= n,
            n == cal.weeks@.len(),
            out@ =~= spec_flat_counts(cal.weeks.deep_view().take(i as int)),
        decreases n - i,
    {
        let week = &cal.weeks[i];
        let m = week.contribution_days.len();
        let mut j: usize = 0;
        while j < m
            invariant
                j <= m,
                i < n,
                n == cal.weeks@.len(),
                m == week.contribution_days@.len(),
                week == &cal.weeks[i as int],
                out@ =~= spec_flat_counts(cal.weeks.deep_view().take(i as int)) + counts_of_week(
                    week.deep_view().take(j as int),
                ),
            decreases m - j,
        {
            out.push(week.contribution_days[j].contribution_count);
            proof {
                assert(week.deep_view().take(j + 1).drop_last() =~= week.deep_view().take(
                    j as int,
                ));
                assert(week.deep_view().take(j + 1).last() == week.contribution_days@[j as int].deep_view());
            }
            j = j + 1;
        }
        proof {
            assert(week.deep_view().take(m as int) =~= week.deep_view());
            assert(cal.weeks.deep_view().take(i + 1).drop_last() =~= cal.weeks.deep_view().take(
                i as int,
            ));
            assert(cal.weeks.deep_view().take(i + 1).last() == cal.weeks@[i as int].deep_view());
        }
        i = i + 1;
    }
    proof {
        assert(cal.weeks.deep_view().take(n as int) =~= cal.weeks.deep_view());
    }
    out
}

} // verus!
