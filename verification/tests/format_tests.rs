use session_search::display::{
    snippet_to_cli_line, split_by_chars, split_visual_two_lines, truncate_last_word,
};
use session_search::filename::parse_from_filename;
use session_search::session::{Snippet, SnippetSegment};
use session_search::snippet::{normalize_snippet_text, normalize_ws};
use session_search::util::{format_civil, format_hm, format_relative, format_timestamp, paths_related};

#[test]
fn format_relative_exact_values() {
    assert_eq!(format_relative(100, 50), "just now");
    assert_eq!(format_relative(100, 100), "just now");
    assert_eq!(format_relative(100, 145), "45s ago");
    assert_eq!(format_relative(0, 5 * 60), "5m ago");
    assert_eq!(format_relative(0, 3 * 3600), "3h ago");
    assert_eq!(format_relative(0, 3 * 3600 + 5 * 60), "3h 5m ago");
    assert_eq!(format_relative(0, 2 * 86400), "2d ago");
    assert_eq!(format_relative(0, 2 * 86400 + 4 * 3600), "2d 4h ago");
}

#[test]
fn format_civil_pads_fields() {
    assert_eq!(format_civil(2024, 3, 7, 9, 5), "2024-03-07 09:05");
    assert_eq!(format_civil(987, 12, 31, 23, 59), "0987-12-31 23:59");
    assert_eq!(format_civil(-44, 1, 2, 0, 0), "-0044-01-02 00:00");
}

#[test]
fn format_civil_handles_year_zero() {
    assert_eq!(format_civil(0, 1, 1, 0, 0), "0000-01-01 00:00");
}

#[test]
fn format_hm_pads_fields() {
    assert_eq!(format_hm(7, 4), "07:04");
    assert_eq!(format_hm(23, 59), "23:59");
}

#[test]
fn format_timestamp_renders_a_civil_time() {
    let s = format_timestamp(0);
    assert!(s.contains(':'), "timestamp rendering holds an hour:minute field: {s}");
    assert!(s.contains('-'), "timestamp rendering holds a dated field: {s}");
}

#[test]
fn parse_from_filename_splits_the_stem() {
    let (label, stamp, uuid) =
        parse_from_filename("my-session-2024-01-02T03-04-05-abcdef12-3456");
    assert_eq!(label, "my session");
    assert_eq!(stamp, Some((2024, 1, 2, 3, 4, 5)));
    assert_eq!(uuid, "abcdef12-3456");
}

#[test]
fn parse_from_filename_passes_other_stems_through() {
    let (label, stamp, uuid) = parse_from_filename("notes");
    assert_eq!(label, "notes");
    assert_eq!(stamp, None);
    assert_eq!(uuid, "notes");
}

#[test]
fn normalize_ws_collapses_and_trims() {
    assert_eq!(normalize_snippet_text("a\t\tb  c\n"), "a b c ");
    assert_eq!(normalize_ws("  a\t\tb  c\n"), "a b c");
}

#[test]
fn split_by_chars_prefers_word_boundaries() {
    assert_eq!(split_by_chars("hello world again", 8), ("hello ".to_owned(), "world again".to_owned()));
    assert_eq!(split_by_chars("abcdefgh", 4), ("abcd".to_owned(), "efgh".to_owned()));
    assert_eq!(split_by_chars("short", 10), ("short".to_owned(), String::new()));
    assert_eq!(split_by_chars("short", 0), (String::new(), "short".to_owned()));
}

#[test]
fn split_visual_two_lines_prefers_word_boundaries() {
    assert_eq!(
        split_visual_two_lines("hello world again", 8),
        ("hello ".to_owned(), "world again".to_owned())
    );
    assert_eq!(split_visual_two_lines("tiny", 8), ("tiny".to_owned(), String::new()));
}

#[test]
fn truncate_last_word_drops_the_trailing_word() {
    let mut q = "fix login bug".to_owned();
    truncate_last_word(&mut q);
    assert_eq!(q, "fix login");
    truncate_last_word(&mut q);
    assert_eq!(q, "fix");
    truncate_last_word(&mut q);
    assert_eq!(q, "");
    truncate_last_word(&mut q);
    assert_eq!(q, "");
}

#[test]
fn snippet_to_cli_line_bolds_the_match() {
    let snippet = Snippet {
        segments: vec![
            SnippetSegment { text: "fix ".to_owned(), highlighted: false },
            SnippetSegment { text: "login".to_owned(), highlighted: true },
            SnippetSegment { text: " bug".to_owned(), highlighted: false },
        ],
    };
    assert_eq!(snippet_to_cli_line(&snippet), "fix \u{1b}[1mlogin\u{1b}[0m bug");
}

#[test]
fn paths_related_compares_whole_components() {
    assert!(paths_related("/home/u/proj", "/home/u"));
    assert!(paths_related("/home/u", "/home/u/proj"));
    assert!(paths_related("/home/u", "/home/u"));
    assert!(!paths_related("/home/u/project", "/home/u/proj"));
    assert!(!paths_related("/home/a", "/home/b"));
}
