use session_search::session::{
    build_search_blob, clip_chars, is_meta_text, latest_message_time, make_preview, Message,
    MessageRole, Session,
};

fn msg(text: &str, timestamp: Option<i64>) -> Message {
    Message {
        role: MessageRole::User,
        text: text.to_owned(),
        timestamp,
        full_text: text.to_owned(),
    }
}

#[test]
fn search_blob_joins_texts_label_and_uuid() {
    let messages = vec![msg("first", None), msg("second", None)];
    let blob = build_search_blob(&messages, "my label", "u-1");
    assert_eq!(blob, "first\nsecond\nmy label\nu-1");
}

#[test]
fn search_blob_without_messages_holds_label_and_uuid() {
    let blob = build_search_blob(&Vec::new(), "my label", "u-1");
    assert_eq!(blob, "my label\nu-1");
}

#[test]
fn search_blob_skips_texts_beyond_the_byte_cap() {
    let huge = "x".repeat(70_000);
    let messages = vec![msg("small", None), msg(&huge, None), msg("tail", None)];
    let blob = build_search_blob(&messages, "l", "u");
    assert_eq!(blob, "small\ntail\nl\nu");
}

#[test]
fn latest_message_time_takes_the_maximum() {
    let messages = vec![msg("a", Some(5)), msg("b", None), msg("c", Some(9)), msg("d", Some(2))];
    assert_eq!(latest_message_time(&messages), Some(9));
    assert_eq!(latest_message_time(&vec![msg("a", None)]), None);
}

#[test]
fn meta_messages_are_recognized() {
    assert!(is_meta_text("<user_instructions>do this</user_instructions>"));
    assert!(is_meta_text("  \n<environment_context><cwd>/x</cwd></environment_context>"));
    assert!(is_meta_text("<system_instructions>x"));
    assert!(!is_meta_text("plain text <user_instructions>"));
    assert!(!is_meta_text("hello"));
}

#[test]
fn clip_chars_caps_codepoints() {
    assert_eq!(clip_chars("hello", 10), "hello");
    assert_eq!(clip_chars("hello", 4), "hell…");
}

#[test]
fn make_preview_trims_and_caps() {
    assert_eq!(make_preview("  hello world  ", 50), "hello world");
    assert_eq!(make_preview("hello world", 6), "hello…");
    assert_eq!(make_preview("anything", 0), "");
}

#[test]
fn match_timestamp_resolves_the_fallback_chain() {
    let session = Session {
        uuid: "u".to_owned(),
        label: "l".to_owned(),
        path: String::new(),
        created_at: None,
        updated_at: 100,
        latest_message_time: Some(200),
        cwd: None,
        messages: vec![msg("a", Some(300))],
        search_blob: String::new(),
    };
    let with_message = session_search::session::SearchResult {
        session: session.clone(),
        matched_message: Some(msg("a", Some(300))),
        score: 0,
        snippet: session_search::session::Snippet { segments: Vec::new() },
    };
    assert_eq!(with_message.match_timestamp(), 300);

    let without_message_ts = session_search::session::SearchResult {
        session: session.clone(),
        matched_message: Some(msg("a", None)),
        score: 0,
        snippet: session_search::session::Snippet { segments: Vec::new() },
    };
    assert_eq!(without_message_ts.match_timestamp(), 200);

    let mut bare_session = session.clone();
    bare_session.latest_message_time = None;
    let bare = session_search::session::SearchResult {
        session: bare_session,
        matched_message: None,
        score: 0,
        snippet: session_search::session::Snippet { segments: Vec::new() },
    };
    assert_eq!(bare.match_timestamp(), 100);
}

#[test]
fn preview_and_title_read_the_session() {
    let session = Session {
        uuid: "u".to_owned(),
        label: "my title".to_owned(),
        path: String::new(),
        created_at: None,
        updated_at: 1,
        latest_message_time: None,
        cwd: None,
        messages: vec![msg("first message", None), msg("second", None)],
        search_blob: String::new(),
    };
    assert_eq!(session.title(), "my title");
    assert_eq!(session.preview().unwrap().full_text, "first message");
}

#[test]
fn cwd_is_extracted_from_environment_context() {
    let text = "<environment_context>\n  <cwd>/home/u/proj</cwd>\n</environment_context>";
    assert_eq!(
        session_search::session::extract_cwd_from_text(text),
        Some("/home/u/proj".to_owned())
    );
}

#[test]
fn cwd_extraction_matches_tags_case_insensitively() {
    let text = "<Environment_Context><CWD>/srv/x</CWD></Environment_Context>";
    assert_eq!(
        session_search::session::extract_cwd_from_text(text),
        Some("/srv/x".to_owned())
    );
}

#[test]
fn cwd_extraction_rejects_markup_content_and_plain_text() {
    assert_eq!(
        session_search::session::extract_cwd_from_text(
            "<environment_context><cwd>a<b</cwd></environment_context>"
        ),
        None
    );
    assert_eq!(session_search::session::extract_cwd_from_text("no tags here"), None);
    assert_eq!(
        session_search::session::extract_cwd_from_text("<environment_context><cwd>/x</cwd>"),
        None,
        "an unclosed block yields nothing"
    );
}

#[test]
fn filter_by_cwd_keeps_related_sessions() {
    let mk = |uuid: &str, cwd: Option<&str>| Session {
        uuid: uuid.to_owned(),
        label: uuid.to_owned(),
        path: String::new(),
        created_at: None,
        updated_at: 1,
        latest_message_time: None,
        cwd: cwd.map(|c| c.to_owned()),
        messages: vec![msg("m", None)],
        search_blob: String::new(),
    };
    let sessions = vec![
        mk("inside", Some("/home/u/proj/sub")),
        mk("outside", Some("/srv/other")),
        mk("unknown", None),
    ];
    let kept = session_search::util::filter_sessions_by_cwd(sessions, "/home/u/proj");
    let uuids: Vec<&str> = kept.iter().map(|s| s.uuid.as_str()).collect();
    assert_eq!(uuids, vec!["inside"]);
}
