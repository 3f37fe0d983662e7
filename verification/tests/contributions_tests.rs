use octotrack::{
    build_contributions_query, contributions_from_response, flatten_contributions, ContribError,
    ContributionCalendar, ContributionDay, ContributionWeek, JsonValue,
};

fn day(date: &str, count: u32) -> ContributionDay {
    ContributionDay { date: date.to_string(), contribution_count: count }
}

#[test]
fn flattening_is_week_major_day_minor() {
    // 2 weeks x 7 days: exactly 14 entries, week order then day order.
    let week1 = ContributionWeek {
        contribution_days: (0u32..7).map(|i| day("2026-01-01", i)).collect(),
    };
    let week2 = ContributionWeek {
        contribution_days: (0u32..7).map(|i| day("2026-01-08", 10 + i)).collect(),
    };
    let cal = ContributionCalendar { weeks: vec![week1, week2] };
    let flat = flatten_contributions(&cal);
    assert_eq!(flat, vec![0, 1, 2, 3, 4, 5, 6, 10, 11, 12, 13, 14, 15, 16]);
}

#[test]
fn graphql_response_decodes_to_flat_counts() {
    let body = r#"{
        "data": {
            "user": {
                "contributionsCollection": {
                    "contributionCalendar": {
                        "weeks": [
                            {"contributionDays": [
                                {"date": "2026-01-01", "contributionCount": 3},
                                {"date": "2026-01-02", "contributionCount": 0}
                            ]},
                            {"contributionDays": [
                                {"date": "2026-01-03", "contributionCount": 7}
                            ]}
                        ]
                    }
                }
            }
        }
    }"#;
    let counts = contributions_from_response(body).unwrap();
    assert_eq!(counts, vec![3, 0, 7]);
}

#[test]
fn graphql_errors_array_wins_over_data() {
    // {"errors":[{"message":"bad"}]}: an upstream error carrying the raw
    // payload, no partial counts.
    let body = r#"{"errors":[{"message":"bad"}]}"#;
    match contributions_from_response(body) {
        Err(ContribError::Upstream { errors }) => {
            assert_eq!(errors.len(), 1);
            match &errors[0] {
                JsonValue::Obj(entries) => {
                    assert_eq!(entries.len(), 1);
                    assert_eq!(entries[0].0, "message");
                    match &entries[0].1 {
                        JsonValue::Str(s) => assert_eq!(s, "bad"),
                        _ => panic!("expected a string message"),
                    }
                }
                _ => panic!("expected the error object to be kept"),
            }
        }
        _ => panic!("expected an upstream error"),
    }
}

#[test]
fn empty_errors_array_is_not_an_upstream_error() {
    let body = r#"{"errors":[],"data":null}"#;
    match contributions_from_response(body) {
        Err(ContribError::Format) => {}
        _ => panic!("expected a format error for the null data payload"),
    }
}

#[test]
fn missing_data_or_user_is_a_format_error() {
    assert!(matches!(contributions_from_response("{}"), Err(ContribError::Format)));
    assert!(matches!(
        contributions_from_response(r#"{"data":{}}"#),
        Err(ContribError::Format)
    ));
}

#[test]
fn unparsable_body_or_bad_shape_is_a_decode_error() {
    assert!(matches!(contributions_from_response("]["), Err(ContribError::Decode)));
    assert!(matches!(
        contributions_from_response(r#"{"data":5}"#),
        Err(ContribError::Decode)
    ));
    // contributionCount must be an unsigned number that fits 32 bits.
    let body = r#"{"data":{"user":{"contributionsCollection":{"contributionCalendar":{
        "weeks":[{"contributionDays":[{"date":"2026-01-01","contributionCount":-2}]}]
    }}}}}"#;
    assert!(matches!(contributions_from_response(body), Err(ContribError::Decode)));
}

#[test]
fn query_text_embeds_username_and_window() {
    let q = build_contributions_query("alice", "2025-09-01T00:00:00+00:00", "2026-03-10T00:00:00+00:00");
    assert_eq!(
        q,
        "query { user(login: \"alice\") { contributionsCollection(from: \
\"2025-09-01T00:00:00+00:00\", to: \"2026-03-10T00:00:00+00:00\") { contributionCalendar \
{ weeks { contributionDays { date contributionCount } } } } } }"
    );
}
