use octotrack::has_next_page;

#[test]
fn link_header_with_next_relation_continues() {
    let header = "<https://api.github.com/user/1/events?per_page=100&page=2>; rel=\"next\", \
                  <https://api.github.com/user/1/events?per_page=100&page=5>; rel=\"last\""
        .to_string();
    assert!(has_next_page(Some(&header)));
}

#[test]
fn link_header_without_next_relation_stops() {
    let header = "<https://api.github.com/user/1/events?per_page=100&page=1>; rel=\"prev\", \
                  <https://api.github.com/user/1/events?per_page=100&page=1>; rel=\"first\""
        .to_string();
    assert!(!has_next_page(Some(&header)));
    // The match is on the exact text rel="next".
    assert!(!has_next_page(Some(&"rel=next".to_string())));
    assert!(has_next_page(Some(&"rel=\"next\"".to_string())));
}

#[test]
fn absent_link_header_stops() {
    assert!(!has_next_page(None));
}
