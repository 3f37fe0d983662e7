use octotrack::{Aggregator, EventKind, FetchError, HttpPage, Request, Stage, StageKind};

fn page(status: u16, body: &str, link: Option<&str>) -> HttpPage {
    HttpPage { status, body: body.to_string(), link: link.map(|s| s.to_string()) }
}

const NEXT_LINK: &str = "<https://api.github.com/user/1?page=2>; rel=\"next\", \
     <https://api.github.com/user/1?page=9>; rel=\"last\"";

#[test]
fn single_page_two_events_one_request() {
    // users/alice/events page 1: two events dated this year, no Link header.
    let mut agg = Aggregator::new("alice".to_string(), 2026);
    let mut user_event_requests = 0;
    match agg.next_request() {
        Some(Request::UserEvents { page }) => {
            assert_eq!(page, 1);
            user_event_requests += 1;
        }
        other => panic!("expected a user-events request, got {:?}", other.is_some()),
    }
    let body = r#"[
        {"type":"PushEvent","created_at":"2026-03-01T10:00:00Z","repo":{"name":"alice/r1"}},
        {"type":"WatchEvent","created_at":"2026-04-02T11:30:00Z","repo":{"name":"alice/r2"}}
    ]"#;
    agg.step(&page(200, body, None)).unwrap();
    // No rel="next": the machine moves on to the repository list.
    match agg.next_request() {
        Some(Request::UserRepos) => {}
        _ => panic!("expected the repository-list request"),
    }
    agg.step(&page(200, "[]", None)).unwrap();
    assert!(agg.is_done());
    let events = agg.into_events();
    assert_eq!(events.len(), 2);
    assert_eq!(events[0].kind, Some(EventKind::Push));
    assert_eq!(events[0].repo_name.as_deref(), Some("alice/r1"));
    assert_eq!(events[1].kind, Some(EventKind::Star));
    assert_eq!(user_event_requests, 1);
}

#[test]
fn pagination_stops_after_link_header_disappears() {
    // Only the first two responses advertise rel="next": exactly three
    // user-event requests go out.
    let mut agg = Aggregator::new("alice".to_string(), 2026);
    let mut pages_requested = Vec::new();
    for _ in 0..3 {
        match agg.next_request() {
            Some(Request::UserEvents { page }) => pages_requested.push(page),
            _ => panic!("expected a user-events request"),
        }
        let link = if pages_requested.len() < 3 { Some(NEXT_LINK) } else { None };
        agg.step(&page(200, "[]", link)).unwrap();
    }
    assert_eq!(pages_requested, vec![1, 2, 3]);
    match agg.next_request() {
        Some(Request::UserRepos) => {}
        _ => panic!("expected the repository-list request after the last page"),
    }
}

#[test]
fn pagination_is_capped_against_an_adversarial_upstream() {
    // Every response advertises a next page; the defensive cap still ends
    // the user-event phase after finitely many requests.
    let mut agg = Aggregator::new("alice".to_string(), 2026);
    let mut user_event_requests = 0u32;
    loop {
        match agg.next_request() {
            Some(Request::UserEvents { .. }) => {
                user_event_requests += 1;
                agg.step(&page(200, "[]", Some(NEXT_LINK))).unwrap();
            }
            Some(Request::UserRepos) => break,
            _ => panic!("unexpected request while paging"),
        }
        assert!(user_event_requests <= 20_000, "the page loop never ended");
    }
    assert_eq!(user_event_requests, 10_000);
}

#[test]
fn repo_without_name_is_skipped() {
    // users/alice/repos returns [{"name":"r1"},{}]: only r1 is fetched.
    let mut agg = Aggregator::new("alice".to_string(), 2026);
    agg.step(&page(200, "[]", None)).unwrap();
    agg.step(&page(200, r#"[{"name":"r1"},{}]"#, None)).unwrap();
    match agg.next_request() {
        Some(Request::RepoEvents { repo }) => assert_eq!(repo, "r1"),
        _ => panic!("expected a repository-events request for r1"),
    }
    agg.step(&page(200, "[]", None)).unwrap();
    assert!(agg.is_done());
    assert!(agg.next_request().is_none());
}

#[test]
fn repo_events_kept_regardless_of_year_and_merge_order() {
    // User events are year-filtered; repository events are not, and the
    // merged order is user events first, then repository events in
    // repository-list order.
    let mut agg = Aggregator::new("alice".to_string(), 2026);
    let user_body = r#"[
        {"type":"PushEvent","created_at":"2026-01-05T00:00:00Z"},
        {"type":"PushEvent","created_at":"2019-01-05T00:00:00Z"},
        {"type":"IssuesEvent","created_at":"2026-12-31T23:59:59Z"}
    ]"#;
    agg.step(&page(200, user_body, None)).unwrap();
    agg.step(&page(200, r#"[{"name":"r1"},{"name":"r2"}]"#, None)).unwrap();
    let r1_body = r#"[{"type":"PullRequestEvent","created_at":"2018-06-01T00:00:00Z","repo":{"name":"alice/r1"}}]"#;
    agg.step(&page(200, r1_body, None)).unwrap();
    let r2_body = r#"[{"type":"WatchEvent","created_at":"2017-06-01T00:00:00Z","repo":{"name":"alice/r2"}}]"#;
    agg.step(&page(200, r2_body, None)).unwrap();
    assert!(agg.is_done());
    let events = agg.into_events();
    let kinds: Vec<_> = events.iter().map(|e| e.kind).collect();
    assert_eq!(
        kinds,
        vec![
            Some(EventKind::Push),
            Some(EventKind::Issue),
            Some(EventKind::PullRequest),
            Some(EventKind::Star),
        ]
    );
    // The 2019 user event was dropped; the 2018/2017 repo events stayed.
    assert_eq!(events[2].created_at.as_deref(), Some("2018-06-01T00:00:00Z"));
    assert_eq!(events[3].created_at.as_deref(), Some("2017-06-01T00:00:00Z"));
}

#[test]
fn non_2xx_status_aborts_with_stage_and_status() {
    let mut agg = Aggregator::new("alice".to_string(), 2026);
    let err = agg.step(&page(404, "[]", None)).unwrap_err();
    assert_eq!(err, FetchError::HttpStatus { stage: StageKind::UserEvents, status: 404 });
    // A redirect is no success either.
    let mut agg = Aggregator::new("alice".to_string(), 2026);
    let err = agg.step(&page(302, "[]", None)).unwrap_err();
    assert_eq!(err, FetchError::HttpStatus { stage: StageKind::UserEvents, status: 302 });
}

#[test]
fn any_2xx_status_is_a_success() {
    let mut agg = Aggregator::new("alice".to_string(), 2026);
    agg.step(&page(203, "[]", None)).unwrap();
    agg.step(&page(299, "[]", None)).unwrap();
    assert!(agg.is_done());
}

#[test]
fn malformed_json_aborts_with_decode_error() {
    let mut agg = Aggregator::new("alice".to_string(), 2026);
    agg.step(&page(200, "[]", None)).unwrap();
    let err = agg.step(&page(200, "not json at all", None)).unwrap_err();
    assert_eq!(err, FetchError::Decode { stage: StageKind::UserRepos });
}

#[test]
fn non_array_event_body_yields_no_events() {
    let mut agg = Aggregator::new("alice".to_string(), 2026);
    agg.step(&page(200, r#"{"message":"rate limited politely"}"#, None)).unwrap();
    agg.step(&page(200, "[]", None)).unwrap();
    assert!(agg.is_done());
    assert_eq!(agg.into_events().len(), 0);
}

#[test]
fn empty_repo_list_finishes_immediately() {
    let mut agg = Aggregator::new("alice".to_string(), 2026);
    agg.step(&page(200, "[]", None)).unwrap();
    agg.step(&page(200, "[]", None)).unwrap();
    assert!(matches!(agg.stage, Stage::Done));
}

#[test]
fn request_urls_match_the_rest_api() {
    let q1 = Request::UserEvents { page: 12 };
    assert_eq!(
        q1.url("alice"),
        "https://api.github.com/users/alice/events?per_page=100&page=12"
    );
    let q2 = Request::UserRepos;
    assert_eq!(q2.url("alice"), "https://api.github.com/users/alice/repos?per_page=100");
    let q3 = Request::RepoEvents { repo: "r1".to_string() };
    assert_eq!(q3.url("alice"), "https://api.github.com/repos/alice/r1/events?per_page=100");
}
