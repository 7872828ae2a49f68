use session_search::search::{recency_bonus, Scorer};
use session_search::session::{Message, MessageRole, Session};

fn msg(text: &str, timestamp: Option<i64>) -> Message {
    Message {
        role: MessageRole::User,
        text: text.to_owned(),
        timestamp,
        full_text: text.to_owned(),
    }
}

fn session(uuid: &str, blob: &str, updated_at: i64, latest: Option<i64>, messages: Vec<Message>) -> Session {
    Session {
        uuid: uuid.to_owned(),
        label: uuid.to_owned(),
        path: format!("/tmp/{uuid}"),
        created_at: None,
        updated_at,
        latest_message_time: latest,
        cwd: None,
        messages,
        search_blob: blob.to_owned(),
    }
}

#[test]
fn recency_bonus_exact_values() {
    assert_eq!(recency_bonus(1000, 1000), 50_000);
    assert_eq!(recency_bonus(1000, 999), 50_000);
    assert_eq!(recency_bonus(1000, 1000 + 59), 50_000);
    assert_eq!(recency_bonus(1000, 1000 + 60), 49_999);
    assert_eq!(recency_bonus(1000, 1000 + 45_000 * 60), 5_000);
    assert_eq!(recency_bonus(0, i64::MAX), 5_000);
}

#[test]
fn empty_query_scores_pure_recency() {
    let now = 10_000_000;
    let s = session("u1", "whatever", now - 600, Some(now - 120), vec![msg("hello there", Some(now - 120))]);
    let scorer = Scorer::with_now("", now);
    assert!(scorer.is_query_empty());
    let (score, matched, _snippet) = scorer.score_session(&s).expect("empty query matches all");
    assert_eq!(score, recency_bonus(now - 120, now));
    assert_eq!(matched.unwrap().full_text, "hello there");
}

#[test]
fn whitespace_only_query_counts_as_empty() {
    let scorer = Scorer::with_now("   \t ", 0);
    assert!(scorer.is_query_empty());
}

#[test]
fn unmatched_session_is_rejected() {
    let now = 5_000_000;
    let s = session("u1", "update docs", now, None, vec![msg("update docs", None)]);
    let scorer = Scorer::with_now("zzz-qqq", now);
    assert!(scorer.score_session(&s).is_none());
}

#[test]
fn containment_match_is_case_insensitive() {
    let now = 5_000_000;
    let s = session("u1", "Fix Login Bug", now, None, vec![msg("Fix Login Bug", None)]);
    let scorer = Scorer::with_now("LOGIN", now);
    let r = scorer.score_session(&s);
    assert!(r.is_some(), "uppercase query must still match by containment");
}

#[test]
fn best_containing_message_is_selected() {
    let now = 5_000_000;
    let messages = vec![
        msg("qqq", None),
        msg("this one holds the needle word", Some(111)),
        msg("qqq again", None),
    ];
    let s = session("u1", "this one holds the needle word", now, None, messages);
    let scorer = Scorer::with_now("needle", now);
    let (_score, matched, snippet) = scorer.score_session(&s).expect("must match");
    let m = matched.expect("a best message exists");
    assert_eq!(m.timestamp, Some(111));
    assert!(snippet.segments.iter().any(|seg| seg.highlighted && seg.text == "needle"));
}

#[test]
fn recency_monotonicity_on_identical_text() {
    let now = 9_000_000;
    let newer = session("u1", "same text", now - 60, Some(now - 60), vec![msg("same text", Some(now - 60))]);
    let older = session("u1", "same text", now - 7200, Some(now - 7200), vec![msg("same text", Some(now - 7200))]);
    let scorer = Scorer::with_now("same", now);
    let (score_new, _, _) = scorer.score_session(&newer).expect("matches");
    let (score_old, _, _) = scorer.score_session(&older).expect("matches");
    assert!(score_new >= score_old);
}

#[test]
fn fuzzy_subsequence_match_without_containment() {
    let now = 5_000_000;
    let s = session(
        "u1",
        "refactor authentication module",
        now,
        None,
        vec![msg("refactor authentication module", None)],
    );
    let scorer = Scorer::with_now("rfctr", now);
    assert!(scorer.score_session(&s).is_some(), "in-order subsequence must fuzzy-match");
}

#[test]
fn matching_session_with_messages_carries_a_matched_message() {
    let now = 5_000_000;
    let with_messages = session("u1", "fix login bug", now, None, vec![msg("fix login bug", None)]);
    let without_messages = session("u2", "fix login bug", now, None, Vec::new());
    let scorer = Scorer::with_now("login", now);
    let (_, matched, _) = scorer.score_session(&with_messages).expect("matches");
    assert!(matched.is_some(), "a session with messages always yields a best message");
    let (_, matched, _) = scorer.score_session(&without_messages).expect("matches by blob");
    assert!(matched.is_none());
}

#[test]
fn score_session_result_carries_session() {
    let now = 5_000_000;
    let s = session("u-xyz", "fix login bug", now, None, vec![msg("fix login bug", None)]);
    let scorer = Scorer::with_now("login", now);
    let r = scorer.score_session_result(&s).expect("matches");
    assert_eq!(r.session.uuid, "u-xyz");
    assert!(r.score > 0);
}
