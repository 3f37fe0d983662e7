//! The activity aggregator: a state machine that pages through the user's
//! events, enumerates the repositories, and appends each repository's
//! events, merging everything into one ordered collection. The caller
//! performs the HTTP requests and feeds each response back through `step`.
//!
//! Only the user-event fetch is paginated; the repository list is read
//! from a single page of up to one hundred entries. That asymmetry is
//! deliberate, and a known limitation for users with more repositories.

use vstd::prelude::*;

use crate::digits::{dec_str, u32_to_string};
use crate::events::{
    decode_events, filter_events_for_last_year, spec_decode_events, spec_filter_year, Event,
    EventView,
};
use crate::json::{json_arr, json_get_str, json_of, parse_json, JsonValue};
use crate::paging::{has_next_page, spec_has_next};

verus! {

/// A defensive bound on the user-event page loop, so that an upstream that
/// keeps advertising a next page cannot run the fetch forever.
pub const PAGE_LIMIT: u32 = 10000;

/// Which fetch a response belongs to.
#[derive(Clone, Copy, PartialEq, Eq, Structural, Debug)]
pub enum StageKind {
    UserEvents,
    UserRepos,
    RepoEvents,
}

/// Why an aggregation aborted. The first failing request ends the whole
/// fetch; nothing partial is kept.
#[derive(Clone, Copy, PartialEq, Eq, Structural, Debug)]
pub enum FetchError {
    /// A response in the named stage had a status outside the 2xx range.
    HttpStatus { stage: StageKind, status: u16 },
    /// A response body in the named stage was not valid JSON.
    Decode { stage: StageKind },
    /// The transport failed before a response arrived; built by the
    /// caller that performs the I/O.
    Transport { stage: StageKind },
}

/// Where the aggregation stands: which request is owed next.
#[derive(Clone, Copy, PartialEq, Eq, Structural, Debug)]
pub enum Stage {
    /// Fetching `users/{username}/events`, at this page number.
    UserEvents { page: u32 },
    /// Fetching the single `users/{username}/repos` page.
    UserRepos,
    /// Fetching `repos/{username}/{repo}/events` for the repository at
    /// this position of the repository list.
    RepoEvents { next_repo: usize },
    Done,
}

/// One HTTP response, reduced to what the aggregator reads: the status
/// code, the body text, and the `Link` header if the response carried one.
pub struct HttpPage {
    pub status: u16,
    pub body: String,
    pub link: Option<String>,
}

pub struct HttpPageView {
    pub status: u16,
    pub body: Seq<char>,
    pub link: Option<Seq<char>>,
}

impl View for HttpPage {
    type V = HttpPageView;

    open spec fn view(&self) -> HttpPageView {
        HttpPageView { status: self.status, body: self.body@, link: self.link.deep_view() }
    }
}

pub struct Aggregator {
    pub username: String,
    pub current_year: u32,
    pub stage: Stage,
    pub events: Vec<Event>,
    pub repos: Vec<String>,
}

pub struct AggregatorView {
    pub username: Seq<char>,
    pub current_year: u32,
    pub stage: Stage,
    pub events: Seq<EventView>,
    pub repos: Seq<Seq<char>>,
}

impl View for Aggregator {
    type V = AggregatorView;

    open spec fn view(&self) -> AggregatorView {
        AggregatorView {
            username: self.username@,
            current_year: self.current_year,
            stage: self.stage,
            events: self.events.deep_view(),
            repos: self.repos.deep_view(),
        }
    }
}

/// The repository-list position of a `RepoEvents` stage stays inside the
/// repository list.
pub open spec fn agg_wf(a: AggregatorView) -> bool {
    a.stage matches Stage::RepoEvents { next_repo } ==> next_repo < a.repos.len()
}

/// A fresh aggregation: nothing fetched, page one of the user events owed.
pub open spec fn spec_init(username: Seq<char>, current_year: u32) -> AggregatorView {
    AggregatorView {
        username,
        current_year,
        stage: Stage::UserEvents { page: 1 },
        events: Seq::empty(),
        repos: Seq::empty(),
    }
}

/// The repository names of a repository-list body: the `name` member of
/// each element, entries without one skipped silently.
pub open spec fn repo_names_of_seq(items: Seq<JsonValue>) -> Seq<Seq<char>>
    decreases items.len(),
{
    if items.len() == 0 {
        Seq::empty()
    } else {
        let rest = repo_names_of_seq(items.drop_last());
        match json_get_str(items.last(), "name"@) {
            Some(name) => rest.push(name),
            None => rest,
        }
    }
}

pub open spec fn spec_decode_repo_names(j: JsonValue) -> Seq<Seq<char>> {
    match json_arr(j) {
        Some(items) => repo_names_of_seq(items),
        None => Seq::empty(),
    }
}

/// One transition of the aggregation: consume the response to the owed
/// request. User-event pages are year-filtered and the link header decides
/// whether another page is owed; the repository list sets up the
/// per-repository fetches; repository events are appended unfiltered. A
/// status outside the 2xx range, or an unparsable body, aborts with the
/// stage's error.
pub open spec fn spec_step(a: AggregatorView, p: HttpPageView) -> Result<
    AggregatorView,
    FetchError,
> {
    match a.stage {
        Stage::UserEvents { page } => {
            if !(200 <= p.status && p.status <= 299) {
                Err(FetchError::HttpStatus { stage: StageKind::UserEvents, status: p.status })
            } else {
                match json_of(p.body) {
                    None => Err(FetchError::Decode { stage: StageKind::UserEvents }),
                    Some(j) => Ok(
                        AggregatorView {
                            stage: if spec_has_next(p.link) && page < PAGE_LIMIT {
                                Stage::UserEvents { page: (page + 1) as u32 }
                            } else {
                                Stage::UserRepos
                            },
                            events: a.events + spec_filter_year(
                                spec_decode_events(j),
                                a.current_year,
                            ),
                            ..a
                        },
                    ),
                }
            }
        },
        Stage::UserRepos => {
            if !(200 <= p.status && p.status <= 299) {
                Err(FetchError::HttpStatus { stage: StageKind::UserRepos, status: p.status })
            } else {
                match json_of(p.body) {
                    None => Err(FetchError::Decode { stage: StageKind::UserRepos }),
                    Some(j) => {
                        let names = spec_decode_repo_names(j);
                        Ok(
                            AggregatorView {
                                stage: if names.len() == 0 {
                                    Stage::Done
                                } else {
                                    Stage::RepoEvents { next_repo: 0 }
                                },
                                repos: names,
                                ..a
                            },
                        )
                    },
                }
            }
        },
        Stage::RepoEvents { next_repo } => {
            if !(200 <= p.status && p.status <= 299) {
                Err(FetchError::HttpStatus { stage: StageKind::RepoEvents, status: p.status })
            } else {
                match json_of(p.body) {
                    None => Err(FetchError::Decode { stage: StageKind::RepoEvents }),
                    Some(j) => Ok(
                        AggregatorView {
                            stage: if next_repo + 1 < a.repos.len() {
                                Stage::RepoEvents { next_repo: (next_repo + 1) as usize }
                            } else {
                                Stage::Done
                            },
                            events: a.events + spec_decode_events(j),
                            ..a
                        },
                    ),
                }
            }
        },
        Stage::Done => Ok(a),
    }
}

impl Aggregator {
    /// Starts an aggregation for `username`, filtering user events against
    /// `current_year`.
    pub fn new(username: String, current_year: u32) -> (r: Aggregator)
        ensures
            r@ == spec_init(username@, current_year),
            agg_wf(r@),
    {
        let r = Aggregator {
            username,
            current_year,
            stage: Stage::UserEvents { page: 1 },
            events: Vec::new(),
            repos: Vec::new(),
        };
        proof {
            assert(r@.events =~= Seq::<EventView>::empty());
            assert(r@.repos =~= Seq::<Seq<char>>::empty());
        }
        r
    }

    /// Feeds the response to the owed request into the machine. On an
    /// error the aggregator is left as it was; the caller abandons it, so
    /// no partial result survives.
    pub fn step(&mut self, page: &HttpPage) -> (r: Result<(), FetchError>)
        requires
            agg_wf(old(self)@),
        ensures
            agg_wf(final(self)@),
            spec_step(old(self)@, page@) matches Ok(a2) ==> r is Ok && final(self)@ == a2,
            spec_step(old(self)@, page@) matches Err(e) ==> r == Err::<(), FetchError>(e)
                && final(self)@ == old(self)@,
    {
        let stage = self.stage;
        match stage {
            Stage::UserEvents { page: page_no } => {
                if !(200 <= page.status && page.status <= 299) {
                    return Err(
                        FetchError::HttpStatus {
                            stage: StageKind::UserEvents,
                            status: page.status,
                        },
                    );
                }
                let j = match parse_json(page.body.as_str()) {
                    Some(j) => j,
                    None => {
                        return Err(FetchError::Decode { stage: StageKind::UserEvents });
                    },
                };
                let decoded = decode_events(&j);
                let mut filtered = filter_events_for_last_year(&decoded, self.current_year);
                let ghost pre = self.events.deep_view();
                let ghost add = filtered.deep_view();
                self.events.append(&mut filtered);
                proof {
                    assert(self.events.deep_view() =~= pre + add);
                }
                if has_next_page(page.link.as_ref()) && page_no < PAGE_LIMIT {
                    self.stage = Stage::UserEvents { page: page_no + 1 };
                } else {
                    self.stage = Stage::UserRepos;
                }
                Ok(())
            },
            Stage::UserRepos => {
                if !(200 <= page.status && page.status <= 299) {
                    return Err(
                        FetchError::HttpStatus { stage: StageKind::UserRepos, status: page.status },
                    );
                }
                let j = match parse_json(page.body.as_str()) {
                    Some(j) => j,
                    None => {
                        return Err(FetchError::Decode { stage: StageKind::UserRepos });
                    },
                };
                let names = decode_repo_names(&j);
                let no_repos = names.len() == 0;
                self.repos = names;
                self.stage = if no_repos {
                    Stage::Done
                } else {
                    Stage::RepoEvents { next_repo: 0 }
                };
                Ok(())
            },
            Stage::RepoEvents { next_repo } => {
                if !(200 <= page.status && page.status <= 299) {
                    return Err(
                        FetchError::HttpStatus {
                            stage: StageKind::RepoEvents,
                            status: page.status,
                        },
                    );
                }
                let j = match parse_json(page.body.as_str()) {
                    Some(j) => j,
                    None => {
                        return Err(FetchError::Decode { stage: StageKind::RepoEvents });
                    },
                };
                let mut decoded = decode_events(&j);
                let ghost pre = self.events.deep_view();
                let ghost add = decoded.deep_view();
                self.events.append(&mut decoded);
                proof {
                    assert(self.events.deep_view() =~= pre + add);
                }
                let len = self.repos.len();
                proof {
                    assert(next_repo < len);
                }
                self.stage = if next_repo + 1 < len {
                    Stage::RepoEvents { next_repo: next_repo + 1 }
                } else {
                    Stage::Done
                };
                Ok(())
            },
            Stage::Done => Ok(()),
        }
    }

    /// The request the machine owes next: the current user-event page, the
    /// repository list, or the events of the repository the stage points
    /// at; `None` once the aggregation is done.
    pub fn next_request(&self) -> (r: Option<Request>)
        requires
            agg_wf(self@),
        ensures
            match self@.stage {
                Stage::UserEvents { page } => r matches Some(q) && q@ == (RequestView::UserEvents {
                    page,
                }),
                Stage::UserRepos => r matches Some(q) && q@ == RequestView::UserRepos,
                Stage::RepoEvents { next_repo } => r matches Some(q) && q@
                    == (RequestView::RepoEvents { repo: self@.repos[next_repo as int] }),
                Stage::Done => r is None,
            },
    {
        match self.stage {
            Stage::UserEvents { page } => Some(Request::UserEvents { page }),
            Stage::UserRepos => Some(Request::UserRepos),
            Stage::RepoEvents { next_repo } => Some(
                Request::RepoEvents { repo: self.repos[next_repo].clone() },
            ),
            Stage::Done => None,
        }
    }

    /// Whether every owed request has been answered.
    pub fn is_done(&self) -> (r: bool)
        ensures
            r == (self@.stage is Done),
    {
        match self.stage {
            Stage::Done => true,
            _ => false,
        }
    }

    /// Hands the merged collection out once the aggregation is finished.
    pub fn into_events(self) -> (r: Vec<Event>)
        ensures
            r.deep_view() == self@.events,
    {
        self.events
    }
}

/// A response the machine accepts: a 2xx status with a parsable body.
pub open spec fn page_ok(p: HttpPageView) -> bool {
    200 <= p.status <= 299 && json_of(p.body) is Some
}

/// The events a response body decodes to.
pub open spec fn page_events(p: HttpPageView) -> Seq<EventView> {
    match json_of(p.body) {
        Some(j) => spec_decode_events(j),
        None => Seq::empty(),
    }
}

/// The repository names a response body decodes to.
pub open spec fn page_repo_names(p: HttpPageView) -> Seq<Seq<char>> {
    match json_of(p.body) {
        Some(j) => spec_decode_repo_names(j),
        None => Seq::empty(),
    }
}

/// Each page's year-filtered events, concatenated in page order.
pub open spec fn filtered_events_of_pages(pages: Seq<HttpPageView>, y: u32) -> Seq<EventView>
    decreases pages.len(),
{
    if pages.len() == 0 {
        Seq::empty()
    } else {
        spec_filter_year(page_events(pages[0]), y) + filtered_events_of_pages(
            pages.drop_first(),
            y,
        )
    }
}

/// Each page's events, unfiltered, concatenated in page order.
pub open spec fn events_of_pages(pages: Seq<HttpPageView>) -> Seq<EventView>
    decreases pages.len(),
{
    if pages.len() == 0 {
        Seq::empty()
    } else {
        page_events(pages[0]) + events_of_pages(pages.drop_first())
    }
}

/// The aggregation run over a sequence of responses, first to last,
/// stopping at the first error.
pub open spec fn spec_run(a: AggregatorView, pages: Seq<HttpPageView>) -> Result<
    AggregatorView,
    FetchError,
>
    decreases pages.len(),
{
    if pages.len() == 0 {
        Ok(a)
    } else {
        match spec_step(a, pages[0]) {
            Ok(a2) => spec_run(a2, pages.drop_first()),
            Err(e) => Err(e),
        }
    }
}

/// A run over concatenated inputs is the run over the first part followed
/// by a run over the second, when the first part succeeds.
pub proof fn lemma_run_append(
    a: AggregatorView,
    s1: Seq<HttpPageView>,
    s2: Seq<HttpPageView>,
)
    requires
        spec_run(a, s1) is Ok,
    ensures
        spec_run(a, s1 + s2) == spec_run(spec_run(a, s1)->Ok_0, s2),
    decreases s1.len(),
{
    if s1.len() == 0 {
        assert(s1 + s2 =~= s2);
    } else {
        assert((s1 + s2)[0] == s1[0]);
        assert((s1 + s2).drop_first() =~= s1.drop_first() + s2);
        lemma_run_append(spec_step(a, s1[0])->Ok_0, s1.drop_first(), s2);
    }
}

pub open spec fn stage_page(s: Stage) -> u32 {
    match s {
        Stage::UserEvents { page } => page,
        _ => 0,
    }
}

pub open spec fn stage_repo(s: Stage) -> int {
    match s {
        Stage::RepoEvents { next_repo } => next_repo as int,
        _ => 0,
    }
}

/// Pagination is driven by the link header alone: with every response well
/// formed and exactly the first `n` of `n + 1` responses advertising a
/// next page, the user-event phase consumes exactly those `n + 1`
/// responses — after `k` of them the machine still owes the request for
/// page `first + k`, and the last response moves it on to the repository
/// list — and it accumulates the pages' year-filtered events in page
/// order.
pub proof fn lemma_pagination(a: AggregatorView, pages: Seq<HttpPageView>, n: int)
    requires
        a.stage is UserEvents,
        n >= 0,
        pages.len() == n + 1,
        stage_page(a.stage) + n < PAGE_LIMIT,
        forall|i: int| 0 <= i <= n ==> page_ok(#[trigger] pages[i]),
        forall|i: int| 0 <= i <= n ==> (spec_has_next(#[trigger] pages[i].link) <==> i < n),
    ensures
        forall|k: int|
            0 <= k <= n ==> (spec_run(a, #[trigger] pages.take(k)) matches Ok(b) && b.stage
                == (Stage::UserEvents { page: (stage_page(a.stage) + k) as u32 })),
        spec_run(a, pages) matches Ok(b) && b.stage == Stage::UserRepos && b.events == a.events
            + filtered_events_of_pages(pages, a.current_year) && b.repos == a.repos && b.username
            == a.username && b.current_year == a.current_year,
    decreases n,
{
    let p0 = stage_page(a.stage);
    assert(spec_run(a, pages.take(0)) == Ok::<AggregatorView, FetchError>(a)) by {
        assert(pages.take(0).len() == 0);
    }
    if n == 0 {
        let b = spec_step(a, pages[0])->Ok_0;
        assert(spec_run(a, pages) == spec_run(b, pages.drop_first()));
        assert(pages.drop_first().len() == 0);
        assert(filtered_events_of_pages(pages.drop_first(), a.current_year)
            == Seq::<EventView>::empty());
        assert(b.events =~= a.events + filtered_events_of_pages(pages, a.current_year));
        assert(forall|k: int|
            0 <= k <= n ==> (spec_run(a, #[trigger] pages.take(k)) matches Ok(c) && c.stage
                == (Stage::UserEvents { page: (p0 + k) as u32 }))) by {
            assert(pages.take(0) =~= Seq::<HttpPageView>::empty());
        }
    } else {
        let a1 = spec_step(a, pages[0])->Ok_0;
        assert(a1.stage == (Stage::UserEvents { page: (p0 + 1) as u32 }));
        let rest = pages.drop_first();
        assert(forall|i: int| 0 <= i <= n - 1 ==> page_ok(#[trigger] rest[i]));
        assert(forall|i: int|
            0 <= i <= n - 1 ==> (spec_has_next(#[trigger] rest[i].link) <==> i < n - 1));
        lemma_pagination(a1, rest, n - 1);
        assert(spec_run(a, pages) == spec_run(a1, rest));
        let b = spec_run(a1, rest)->Ok_0;
        assert(b.events =~= a.events + filtered_events_of_pages(pages, a.current_year));
        assert forall|k: int| 0 <= k <= n implies spec_run(a, #[trigger] pages.take(k)) matches
            Ok(c) && c.stage == (Stage::UserEvents { page: (p0 + k) as u32 }) by {
            if k > 0 {
                assert(pages.take(k)[0] == pages[0]);
                assert(pages.take(k).drop_first() =~= rest.take(k - 1));
                assert(spec_run(a, pages.take(k)) == spec_run(a1, rest.take(k - 1)));
            }
        }
    }
}

/// The per-repository phase applies no year filter: from any position of
/// the repository list, one well-formed response per remaining repository
/// appends that repository's events — every one of them, whatever their
/// date — in repository-list order, and then the aggregation is done.
pub proof fn lemma_repo_phase(a: AggregatorView, pages: Seq<HttpPageView>)
    requires
        a.stage is RepoEvents,
        agg_wf(a),
        a.repos.len() <= usize::MAX,
        pages.len() == a.repos.len() - stage_repo(a.stage),
        forall|i: int| 0 <= i < pages.len() ==> page_ok(#[trigger] pages[i]),
    ensures
        forall|k: int|
            0 <= k < pages.len() ==> (spec_run(a, #[trigger] pages.take(k)) matches Ok(b)
                && b.stage == (Stage::RepoEvents { next_repo: (stage_repo(a.stage) + k) as usize })
                && b.repos == a.repos),
        spec_run(a, pages) matches Ok(b) && b.stage is Done && b.events == a.events
            + events_of_pages(pages) && b.repos == a.repos && b.username == a.username
            && b.current_year == a.current_year,
    decreases pages.len(),
{
    let k0 = stage_repo(a.stage);
    let a1 = spec_step(a, pages[0])->Ok_0;
    let rest = pages.drop_first();
    assert(spec_run(a, pages) == spec_run(a1, rest));
    if pages.len() == 1 {
        assert(a1.stage is Done);
        assert(rest.len() == 0);
        assert(events_of_pages(rest) == Seq::<EventView>::empty());
        assert(a1.events =~= a.events + events_of_pages(pages));
    } else {
        assert(a1.stage == (Stage::RepoEvents { next_repo: (k0 + 1) as usize }));
        lemma_repo_phase(a1, rest);
        let b = spec_run(a1, rest)->Ok_0;
        assert(b.events =~= a.events + events_of_pages(pages));
    }
    assert forall|k: int| 0 <= k < pages.len() implies spec_run(a, #[trigger] pages.take(k))
        matches Ok(b) && b.stage == (Stage::RepoEvents { next_repo: (k0 + k) as usize }) && b.repos
        == a.repos by {
        if k == 0 {
            assert(pages.take(0).len() == 0);
        } else {
            assert(pages.take(k)[0] == pages[0]);
            assert(pages.take(k).drop_first() =~= rest.take(k - 1));
            assert(spec_run(a, pages.take(k)) == spec_run(a1, rest.take(k - 1)));
        }
    }
}

/// Merge order is deterministic: a full successful run yields all
/// year-filtered user events in page order, followed by the
/// per-repository events in repository-list order, unfiltered.
pub proof fn lemma_merge_order(
    username: Seq<char>,
    year: u32,
    user_pages: Seq<HttpPageView>,
    repos_page: HttpPageView,
    repo_pages: Seq<HttpPageView>,
)
    requires
        1 <= user_pages.len() < PAGE_LIMIT,
        forall|i: int| 0 <= i < user_pages.len() ==> page_ok(#[trigger] user_pages[i]),
        forall|i: int|
            0 <= i < user_pages.len() ==> (spec_has_next(#[trigger] user_pages[i].link) <==> i
                < user_pages.len() - 1),
        page_ok(repos_page),
        page_repo_names(repos_page).len() <= usize::MAX,
        repo_pages.len() == page_repo_names(repos_page).len(),
        forall|i: int| 0 <= i < repo_pages.len() ==> page_ok(#[trigger] repo_pages[i]),
    ensures
        spec_run(spec_init(username, year), user_pages + seq![repos_page] + repo_pages) matches Ok(
            b,
        ) && b.stage is Done && b.events == filtered_events_of_pages(user_pages, year)
            + events_of_pages(repo_pages) && b.repos == page_repo_names(repos_page),
{
    let a0 = spec_init(username, year);
    let n = user_pages.len() - 1;
    lemma_pagination(a0, user_pages, n);
    let b1 = spec_run(a0, user_pages)->Ok_0;
    let tail = seq![repos_page] + repo_pages;
    lemma_run_append(a0, user_pages, tail);
    assert(user_pages + seq![repos_page] + repo_pages =~= user_pages + tail);
    assert(tail[0] == repos_page);
    assert(tail.drop_first() =~= repo_pages);
    let b2 = spec_step(b1, repos_page)->Ok_0;
    assert(spec_run(b1, tail) == spec_run(b2, repo_pages));
    assert(b2.repos == page_repo_names(repos_page));
    if b2.repos.len() == 0 {
        assert(repo_pages.len() == 0);
        assert(b2.stage is Done);
        assert(b2.events =~= filtered_events_of_pages(user_pages, year) + events_of_pages(
            repo_pages,
        ));
    } else {
        assert(b2.stage == (Stage::RepoEvents { next_repo: 0 as usize }));
        lemma_repo_phase(b2, repo_pages);
        let b = spec_run(b2, repo_pages)->Ok_0;
        assert(b.events =~= filtered_events_of_pages(user_pages, year) + events_of_pages(
            repo_pages,
        ));
    }
}

/// The request an aggregator owes next, as plain values; the caller turns
/// it into an HTTP GET.
pub enum Request {
    UserEvents { page: u32 },
    UserRepos,
    RepoEvents { repo: String },
}

pub enum RequestView {
    UserEvents { page: u32 },
    UserRepos,
    RepoEvents { repo: Seq<char> },
}

impl View for Request {
    type V = RequestView;

    open spec fn view(&self) -> RequestView {
        match self {
            Request::UserEvents { page } => RequestView::UserEvents { page: *page },
            Request::UserRepos => RequestView::UserRepos,
            Request::RepoEvents { repo } => RequestView::RepoEvents { repo: repo@ },
        }
    }
}

/// The URL of a request, as the GitHub REST API spells it.
pub open spec fn spec_request_url(q: RequestView, username: Seq<char>) -> Seq<char> {
    match q {
        RequestView::UserEvents { page } => "https://api.github.com/users/"@ + username
            + "/events?per_page=100&page="@ + dec_str(page as nat),
        RequestView::UserRepos => "https://api.github.com/users/"@ + username
            + "/repos?per_page=100"@,
        RequestView::RepoEvents { repo } => "https://api.github.com/repos/"@ + username + "/"@
            + repo + "/events?per_page=100"@,
    }
}

impl Request {
    /// Spells this request's URL out.
    pub fn url(&self, username: &str) -> (r: String)
        ensures
            r@ == spec_request_url(self@, username@),
    {
        match self {
            Request::UserEvents { page } => {
                let mut s = String::from_str("https://api.github.com/users/");
                s.append(username);
                s.append("/events?per_page=100&page=");
                let p = u32_to_string(*page);
                s.append(p.as_str());
                proof {
                    assert(s@ =~= spec_request_url(self@, username@));
                }
                s
            },
            Request::UserRepos => {
                let mut s = String::from_str("https://api.github.com/users/");
                s.append(username);
                s.append("/repos?per_page=100");
                proof {
                    assert(s@ =~= spec_request_url(self@, username@));
                }
                s
            },
            Request::RepoEvents { repo } => {
                let mut s = String::from_str("https://api.github.com/repos/");
                s.append(username);
                s.append("/");
                s.append(repo.as_str());
                s.append("/events?per_page=100");
                proof {
                    assert(s@ =~= spec_request_url(self@, username@));
                }
                s
            },
        }
    }
}

/// Decodes a repository-list body into the repository names, skipping
/// entries without a `name`.
pub fn decode_repo_names(j: &JsonValue) -> (r: Vec<String>)
    ensures
        r.deep_view() == spec_decode_repo_names(*j),
{
    let mut out: Vec<String> = Vec::new();
    match j.array_value() {
        Some(items) => {
            let n = items.len();
            let mut i: usize = 0;
            proof {
                assert(out.deep_view() =~= repo_names_of_seq(items@.take(0)));
            }
            while i < n
                invariant
                    i <= n,
                    n == items@.len(),
                    json_arr(*j) == Some(items@),
                    out.deep_view() =~= repo_names_of_seq(items@.take(i as int)),
                decreases n - i,
            {
                let ghost pre = out.deep_view();
                match items[i].get_string("name") {
                    Some(name) => {
                        out.push(name);
                    },
                    None => {},
                }
                proof {
                    assert(items@.take(i + 1).drop_last() =~= items@.take(i as int));
                    assert(items@.take(i + 1).last() == items@[i as int]);
                    assert(out.deep_view() =~= repo_names_of_seq(items@.take(i + 1)));
                }
                i = i + 1;
            }
            proof {
                assert(items@.take(n as int) =~= items@);
            }
            out
        },
        None => out,
    }
}

} // verus!
