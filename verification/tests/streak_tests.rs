use octotrack::extract_streak_stats;

const FULL_PAGE: &str = "<svg><g>\
<g><text>ignored</text></g>\
<g><text>ignored</text></g>\
<g><g><text>1024</text></g></g>\
<g><g></g><g></g><g></g><g></g><g><text>12</text></g></g>\
<g><g><text>88</text></g></g>\
</g></svg>";

#[test]
fn all_three_fields_are_extracted() {
    let stats = extract_streak_stats(FULL_PAGE);
    assert_eq!(stats.total_contributions, "1024");
    assert_eq!(stats.current_streak, "12");
    assert_eq!(stats.longest_streak, "88");
}

#[test]
fn a_missing_selector_degrades_to_its_sentinel_alone() {
    // Only the third group exists: the total is found, the two streak
    // fields fall back to "None" without disturbing it.
    let page = "<svg><g>\
<g></g><g></g>\
<g><g><text>512</text></g></g>\
</g></svg>";
    let stats = extract_streak_stats(page);
    assert_eq!(stats.total_contributions, "512");
    assert_eq!(stats.current_streak, "None");
    assert_eq!(stats.longest_streak, "None");
}

#[test]
fn empty_markup_gives_all_sentinels() {
    let stats = extract_streak_stats("");
    assert_eq!(stats.total_contributions, "None");
    assert_eq!(stats.current_streak, "None");
    assert_eq!(stats.longest_streak, "None");
}

#[test]
fn a_non_text_first_child_reads_not_found() {
    // The matched <text> element's first child is another element.
    let page = "<svg><g>\
<g></g><g></g>\
<g><g><text><tspan>77</tspan></text></g></g>\
</g></svg>";
    let stats = extract_streak_stats(page);
    assert_eq!(stats.total_contributions, "Not found");
    assert_eq!(stats.current_streak, "None");
    assert_eq!(stats.longest_streak, "None");
}
