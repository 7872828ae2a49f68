use session_search::snippet::snippet_from_text;

#[test]
fn snippet_with_match_normalizes_whitespace() {
    let text = "alpha\nbeta   gamma\t\ndelta";
    let snippet = snippet_from_text(text, "beta", 30);
    let combined: String = snippet
        .segments
        .iter()
        .map(|segment| segment.text.as_str())
        .collect();

    assert_eq!(combined, "alpha beta gamma delta");
    assert!(
        snippet
            .segments
            .iter()
            .any(|segment| segment.highlighted && segment.text == "beta")
    );
}

#[test]
fn snippet_without_match_normalizes_whitespace() {
    let text = "foo\n\nbar\tbaz";
    let snippet = snippet_from_text(text, "", 20);

    assert_eq!(snippet.segments.len(), 1);
    assert_eq!(snippet.segments[0].text, "foo bar baz");
    assert!(!snippet.segments[0].highlighted);
}

#[test]
fn snippet_balances_context_when_room_on_both_sides() {
    let prefix = "a".repeat(80);
    let suffix = "b".repeat(80);
    let text = format!("{prefix}match{suffix}");
    let snippet = snippet_from_text(&text, "match", 20);

    let combined: String = snippet
        .segments
        .iter()
        .map(|segment| segment.text.as_str())
        .collect();

    let match_idx = combined.find("match").unwrap();
    let total_len = combined.len();

    assert!(match_idx > total_len / 4, "match too close to start");
    assert!(match_idx < (total_len * 3) / 4, "match too close to end");
}

#[test]
fn snippet_empty_text_gives_one_empty_segment() {
    let snippet = snippet_from_text("", "query", 20);
    assert_eq!(snippet.segments.len(), 1);
    assert_eq!(snippet.segments[0].text, "");
    assert!(!snippet.segments[0].highlighted);
}

#[test]
fn snippet_marks_truncation_on_both_sides() {
    let prefix = "x".repeat(100);
    let suffix = "y".repeat(100);
    let text = format!("{prefix}needle{suffix}");
    let snippet = snippet_from_text(&text, "needle", 10);
    assert_eq!(snippet.segments.first().unwrap().text, "…");
    assert_eq!(snippet.segments.last().unwrap().text, "…");
    let highlighted: Vec<_> = snippet.segments.iter().filter(|s| s.highlighted).collect();
    assert_eq!(highlighted.len(), 1);
    assert_eq!(highlighted[0].text, "needle");
}

#[test]
fn snippet_no_occurrence_falls_back_to_leading_excerpt() {
    let snippet = snippet_from_text("some   text here", "absent", 5);
    assert_eq!(snippet.segments.len(), 1);
    assert_eq!(snippet.segments[0].text, "some tex");
    assert!(!snippet.segments[0].highlighted);
}

#[test]
fn snippet_match_is_case_insensitive() {
    let snippet = snippet_from_text("Fix Login Bug", "login", 60);
    let highlighted: Vec<_> = snippet.segments.iter().filter(|s| s.highlighted).collect();
    assert_eq!(highlighted.len(), 1);
    assert_eq!(highlighted[0].text, "Login");
}
