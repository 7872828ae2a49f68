use session_search::rank::{rank, search_sessions};
use session_search::session::{Message, MessageRole, Session};

fn msg(text: &str, timestamp: Option<i64>) -> Message {
    Message {
        role: MessageRole::Assistant,
        text: text.to_owned(),
        timestamp,
        full_text: text.to_owned(),
    }
}

fn session(uuid: &str, blob: &str, updated_at: i64) -> Session {
    Session {
        uuid: uuid.to_owned(),
        label: uuid.to_owned(),
        path: format!("/tmp/{uuid}"),
        created_at: None,
        updated_at,
        latest_message_time: Some(updated_at),
        cwd: None,
        messages: vec![msg(blob, Some(updated_at))],
        search_blob: blob.to_owned(),
    }
}

fn corpus(now: i64) -> Vec<Session> {
    vec![
        session("s1", "refactor auth module", now - 300),
        session("s2", "fix login bug", now - 200),
        session("s3", "update docs", now - 100),
    ]
}

#[test]
fn query_selects_exactly_the_matching_session() {
    let now = 20_000_000;
    let sessions = corpus(now);
    let results = rank(&sessions, "login", 20, now);
    assert_eq!(results.len(), 1);
    assert_eq!(results[0].session.uuid, "s2");
}

#[test]
fn empty_query_returns_all_by_anchor_descending() {
    let now = 20_000_000;
    let sessions = corpus(now);
    let results = rank(&sessions, "", 20, now);
    let uuids: Vec<&str> = results.iter().map(|r| r.session.uuid.as_str()).collect();
    assert_eq!(uuids, vec!["s3", "s2", "s1"]);
}

#[test]
fn unmatched_query_returns_empty_list() {
    let now = 20_000_000;
    let sessions = corpus(now);
    let results = rank(&sessions, "zzz-nomatch", 20, now);
    assert!(results.is_empty());
}

#[test]
fn rank_is_deterministic_under_a_frozen_clock() {
    let now = 20_000_000;
    let sessions = corpus(now);
    let a = rank(&sessions, "o", 20, now);
    let b = rank(&sessions, "o", 20, now);
    let ua: Vec<(String, i64)> = a.iter().map(|r| (r.session.uuid.clone(), r.score)).collect();
    let ub: Vec<(String, i64)> = b.iter().map(|r| (r.session.uuid.clone(), r.score)).collect();
    assert_eq!(ua, ub);
}

#[test]
fn limit_truncates_results() {
    let now = 20_000_000;
    let sessions = corpus(now);
    let results = rank(&sessions, "", 2, now);
    assert_eq!(results.len(), 2);
    assert_eq!(results[0].session.uuid, "s3");
    assert_eq!(results[1].session.uuid, "s2");
}

#[test]
fn results_order_by_match_timestamp_then_score() {
    let now = 20_000_000;
    let mut a = session("old", "alpha beta", now - 5000);
    let mut b = session("new", "alpha beta", now - 50);
    a.messages[0].timestamp = Some(now - 5000);
    b.messages[0].timestamp = Some(now - 50);
    let sessions = vec![a, b];
    let results = rank(&sessions, "alpha", 20, now);
    assert_eq!(results.len(), 2);
    assert_eq!(results[0].session.uuid, "new");
    assert_eq!(results[1].session.uuid, "old");
    assert!(results[0].match_timestamp() >= results[1].match_timestamp());
}

#[test]
fn search_sessions_uses_the_wall_clock() {
    let now = 20_000_000;
    let sessions = corpus(now);
    let results = search_sessions(&sessions, "login", 20);
    assert_eq!(results.len(), 1);
    assert_eq!(results[0].session.uuid, "s2");
}
