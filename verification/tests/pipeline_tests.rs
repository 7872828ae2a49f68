use session_search::pipeline::{
    worker_step, Pipeline, PipelineConfig, PipelineEvent,
};
use session_search::run;
use session_search::session::{Message, MessageRole, Session};

fn msg(text: &str, timestamp: Option<i64>) -> Message {
    Message {
        role: MessageRole::User,
        text: text.to_owned(),
        timestamp,
        full_text: text.to_owned(),
    }
}

fn session(uuid: &str, blob: &str, updated_at: i64) -> Session {
    Session {
        uuid: uuid.to_owned(),
        label: uuid.to_owned(),
        path: format!("/tmp/{uuid}"),
        created_at: None,
        updated_at,
        latest_message_time: Some(updated_at),
        cwd: None,
        messages: vec![msg(blob, Some(updated_at))],
        search_blob: blob.to_owned(),
    }
}

#[test]
fn ten_rapid_edits_dispatch_exactly_one_job() {
    // Start 80 ms in the past so the first tick is already eligible.
    let mut events = Vec::new();
    events.push(PipelineEvent::Ingest(vec![session("s1", "fix login bug", 100)], false));
    for i in 0..10i64 {
        events.push(PipelineEvent::QueryEdit(format!("quer{i}")));
        events.push(PipelineEvent::Tick(i * 8));
    }
    let (_pipeline, jobs) = run(PipelineConfig::standard(), String::new(), -80, events);
    assert_eq!(jobs.len(), 1, "ten edits inside the debounce window give one job");
}

#[test]
fn spaced_edits_dispatch_separate_jobs() {
    let mut events = Vec::new();
    events.push(PipelineEvent::QueryEdit("a".to_owned()));
    events.push(PipelineEvent::Tick(0));
    events.push(PipelineEvent::QueryEdit("ab".to_owned()));
    events.push(PipelineEvent::Tick(100));
    let (_pipeline, jobs) = run(PipelineConfig::standard(), String::new(), -80, events);
    assert_eq!(jobs.len(), 2);
    assert!(jobs[0].id != jobs[1].id);
}

#[test]
fn run_applies_a_current_worker_result() {
    let events = vec![
        PipelineEvent::QueryEdit("a".to_owned()),
        PipelineEvent::Tick(0),
        PipelineEvent::WorkerResult(1, Vec::new()),
    ];
    let (pipeline, jobs) = run(PipelineConfig::standard(), String::new(), -80, events);
    assert_eq!(jobs.len(), 1);
    assert_eq!(jobs[0].id, 1);
    assert_eq!(pipeline.pending_job(), None, "the current result clears the pending job");
}

#[test]
fn stale_result_is_not_applied() {
    let now = 1_000_000i64;
    let mut pl = Pipeline::new(PipelineConfig::standard(), String::new(), 0);
    pl.ingest(vec![session("s1", "fix login bug", now)], false);

    pl.set_query("login".to_owned());
    let job_a = pl.tick(100).expect("first dispatch");
    pl.set_query("login b".to_owned());
    let job_b = pl.tick(200).expect("second dispatch");
    assert!(job_a.id != job_b.id);

    // The older job's result arrives after the newer dispatch: discarded.
    let (id_a, results_a) = worker_step(&job_a, now);
    assert_eq!(id_a, job_a.id);
    assert!(!pl.apply_result(id_a, results_a));
    assert!(pl.results().is_empty());

    // The newest job's result is applied.
    let (id_b, results_b) = worker_step(&job_b, now);
    assert!(pl.apply_result(id_b, results_b));
}

#[test]
fn dispatch_carries_all_sessions_for_nonempty_query() {
    let mut pl = Pipeline::new(PipelineConfig::standard(), "x".to_owned(), 0);
    let first: Vec<Session> = (0..15).map(|i| session(&format!("s{i}"), "xyz", i as i64)).collect();
    let second: Vec<Session> =
        (15..30).map(|i| session(&format!("s{i}"), "xyz", i as i64)).collect();
    pl.ingest(first, false);
    pl.ingest(second, false);
    assert_eq!(pl.session_count(), 30);
    let job = pl.tick(100).expect("dirty state dispatches");
    assert_eq!(job.candidates.len(), 30, "non-empty query ranks every session");
}

#[test]
fn dispatch_caps_candidates_for_empty_query() {
    let mut pl = Pipeline::new(PipelineConfig::standard(), String::new(), 0);
    let first: Vec<Session> = (0..15).map(|i| session(&format!("s{i}"), "xyz", i as i64)).collect();
    let second: Vec<Session> =
        (15..30).map(|i| session(&format!("s{i}"), "xyz", i as i64)).collect();
    pl.ingest(first, false);
    pl.ingest(second, false);
    let job = pl.tick(100).expect("dirty state dispatches");
    assert_eq!(job.candidates.len(), 20, "empty query ranks the first `limit` sessions");
}

#[test]
fn stream_disconnect_is_recorded() {
    let mut pl = Pipeline::new(PipelineConfig::standard(), String::new(), 0);
    assert!(!pl.is_stream_finished());
    pl.ingest(Vec::new(), true);
    assert!(pl.is_stream_finished());
    assert_eq!(pl.session_count(), 0);
}

#[test]
fn worker_step_ranks_the_frozen_candidates() {
    let now = 1_000_000i64;
    let mut pl = Pipeline::new(PipelineConfig::standard(), "login".to_owned(), 0);
    pl.ingest(
        vec![
            session("s1", "refactor auth module", now - 300),
            session("s2", "fix login bug", now - 200),
            session("s3", "update docs", now - 100),
        ],
        false,
    );
    let job = pl.tick(100).expect("dispatch");
    let (id, results) = worker_step(&job, now);
    assert_eq!(id, job.id);
    assert_eq!(results.len(), 1);
    assert_eq!(results[0].session.uuid, "s2");
    assert!(pl.apply_result(id, results));
    assert_eq!(pl.results().len(), 1);
}

#[test]
fn worker_results_with_unknown_id_are_discarded() {
    let mut pl = Pipeline::new(PipelineConfig::standard(), String::new(), 0);
    assert_eq!(pl.pending_job(), None);
    assert!(!pl.apply_result(42, Vec::new()));
}
