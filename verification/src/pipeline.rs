//! The orchestrator: ingestion, query-edit tracking, debounced job
//! dispatch, and stale-result suppression.
//!
//! The pipeline is a state machine.  Each public method is one transition
//! with an exact contract over the pipeline's model, so the debounce and
//! suppression guarantees are theorems about any driver loop:
//! - a job is dispatched only when at least `debounce_ms` has elapsed since
//!   the previous dispatch, whatever the rate of edits or ingestion;
//! - a worker result is applied only while its job id is still the pending
//!   one; results of superseded jobs are discarded.

use vstd::prelude::*;

use crate::index::CoarseIndex;
use crate::rank::{result_views, session_views};
use crate::session::{ResultView, SearchResult, Session, SessionView};
use crate::text::{chars_vec, is_prefix_chars, is_prefix_spec};

verus! {

use vstd::math::min;

/// The options the orchestrator runs under.
pub struct PipelineConfig {
    /// Result-list cap handed to each ranking job.
    pub limit: usize,
    /// Minimum interval between two dispatched jobs, in milliseconds.
    pub debounce_ms: i64,
    /// How many inbound records one tick may drain.
    pub ingest_cap: usize,
    /// Time budget handed to the coarse index per tick, in milliseconds.
    pub tick_budget: u64,
}

impl PipelineConfig {
    /// The default configuration: 20 results, 80 ms debounce, 20 records
    /// per tick, 1 ms of index work per tick.
    pub fn standard() -> (r: PipelineConfig)
        ensures
            r.limit == crate::DEFAULT_LIMIT,
            r.debounce_ms == 80,
            r.ingest_cap == 20,
            r.tick_budget == 1,
    {
        PipelineConfig { limit: crate::DEFAULT_LIMIT, debounce_ms: 80, ingest_cap: 20, tick_budget: 1 }
    }
}

/// The options of an interactive session around the pipeline.
pub struct TuiConfig {
    /// Result-list cap.
    pub limit: usize,
    /// Command template run when a session is selected (`{uuid}` expands).
    pub resume_command: String,
    /// Print the resume command instead of running it.
    pub dry_run: bool,
    /// Query text present before the first keystroke.
    pub initial_query: String,
    /// Status text shown when no sessions exist at all.
    pub empty_status: Option<String>,
    /// Total-count hint from the discovery stream, zero when unknown.
    pub total_expected: usize,
    /// Restrict results to sessions under this working directory.
    pub filter_cwd: Option<String>,
}

/// One ranking job: the query and candidate set frozen at dispatch time,
/// tagged with the job id that stale-result suppression compares against.
pub struct Job {
    pub id: u64,
    pub query: String,
    pub candidates: Vec<Session>,
    pub limit: usize,
}

/// Ghost model of a job.
#[verifier::ext_equal]
pub ghost struct JobView {
    pub id: u64,
    pub query: Seq<char>,
    pub candidates: Seq<SessionView>,
    pub limit: usize,
}

impl View for Job {
    type V = JobView;

    open spec fn view(&self) -> JobView {
        JobView {
            id: self.id,
            query: self.query@,
            candidates: session_views(self.candidates@),
            limit: self.limit,
        }
    }
}

/// Ghost model of the orchestrator's state.
#[verifier::ext_equal]
pub ghost struct PipelineView {
    pub limit: usize,
    pub debounce_ms: i64,
    pub ingest_cap: usize,
    pub tick_budget: u64,
    pub sessions: Seq<SessionView>,
    pub query: Seq<char>,
    pub last_query: Seq<char>,
    pub query_dirty: bool,
    pub results_dirty: bool,
    pub last_rebuild_at: i64,
    pub next_job_id: u64,
    pub pending_job: Option<u64>,
    pub stream_finished: bool,
    pub results: Seq<ResultView>,
}

/// The state after draining `newly` from the inbound stream (with
/// `closed` reporting its disconnection): the live set grows, and results
/// become dirty when anything happened.
pub open spec fn ingested(st: PipelineView, newly: Seq<SessionView>, closed: bool) -> PipelineView {
    PipelineView {
        sessions: st.sessions + newly,
        stream_finished: st.stream_finished || closed,
        results_dirty: st.results_dirty || newly.len() > 0 || closed,
        ..st
    }
}

/// The state after a query edit: both dirty flags rise immediately.
pub open spec fn edited(st: PipelineView, q: Seq<char>) -> PipelineView {
    PipelineView { query: q, query_dirty: true, results_dirty: true, ..st }
}

/// The state after the reparse step of a tick: a dirty query is pushed to
/// the index and leaves results dirty.
pub open spec fn after_reparse(st: PipelineView) -> PipelineView {
    if st.query_dirty {
        PipelineView { last_query: st.query, query_dirty: false, results_dirty: true, ..st }
    } else {
        st
    }
}

/// The new query strictly extends the old one: a typed character, which
/// lets the index narrow instead of rescanning.
pub open spec fn append_hint_spec(old_q: Seq<char>, new_q: Seq<char>) -> bool {
    new_q.len() > old_q.len() && is_prefix_spec(old_q, new_q)
}

/// Whether enough time has passed since the last rebuild to dispatch.
pub open spec fn tick_eligible(st: PipelineView, now_ms: i64) -> bool {
    now_ms - st.last_rebuild_at >= st.debounce_ms
}

/// The successor job id.
pub open spec fn bump_id(id: u64) -> u64 {
    if id == u64::MAX {
        0
    } else {
        (id + 1) as u64
    }
}

/// The candidate set of a job: the first `limit` sessions for an empty
/// query, every session otherwise — the coarse index never narrows the
/// exact ranking pass.
pub open spec fn candidates_spec(st: PipelineView) -> Seq<SessionView> {
    if st.query.len() == 0 {
        st.sessions.take(min(st.limit as int, st.sessions.len() as int))
    } else {
        st.sessions
    }
}

/// The state after dispatching a job at `now_ms`.
pub open spec fn dispatched(st: PipelineView, now_ms: i64) -> PipelineView {
    PipelineView {
        last_rebuild_at: now_ms,
        next_job_id: bump_id(st.next_job_id),
        pending_job: Some(st.next_job_id),
        ..st
    }
}

/// The job a dispatch from state `st` carries.
pub open spec fn dispatch_job(st: PipelineView) -> JobView {
    JobView { id: st.next_job_id, query: st.query, candidates: candidates_spec(st), limit: st.limit }
}

/// The state after applying a worker result.
pub open spec fn applied(st: PipelineView, rs: Seq<ResultView>) -> PipelineView {
    PipelineView { results: rs, pending_job: None, results_dirty: false, ..st }
}

/// The orchestrator's state: configuration, the live session set (mirrored
/// in the coarse index), the query-edit flags, the debounce clock and the
/// job bookkeeping.
pub struct Pipeline {
    limit: usize,
    debounce_ms: i64,
    ingest_cap: usize,
    tick_budget: u64,
    sessions: Vec<Session>,
    index: CoarseIndex,
    query: String,
    last_query: String,
    query_dirty: bool,
    results_dirty: bool,
    last_rebuild_at: i64,
    next_job_id: u64,
    pending_job: Option<u64>,
    stream_finished: bool,
    results: Vec<SearchResult>,
}

impl View for Pipeline {
    type V = PipelineView;

    closed spec fn view(&self) -> PipelineView {
        PipelineView {
            limit: self.limit,
            debounce_ms: self.debounce_ms,
            ingest_cap: self.ingest_cap,
            tick_budget: self.tick_budget,
            sessions: session_views(self.sessions@),
            query: self.query@,
            last_query: self.last_query@,
            query_dirty: self.query_dirty,
            results_dirty: self.results_dirty,
            last_rebuild_at: self.last_rebuild_at,
            next_job_id: self.next_job_id,
            pending_job: self.pending_job,
            stream_finished: self.stream_finished,
            results: result_views(self.results@),
        }
    }
}

impl Pipeline {
    /// The coarse index mirrors the live set: session `i` is registered
    /// under id `i`.
    pub closed spec fn wf(&self) -> bool {
        self.index.ids() == Seq::new(self.sessions@.len(), |i: int| i as u64)
    }

    /// Builds a fresh pipeline at clock `now_ms` with an initial query.
    pub fn new(config: PipelineConfig, initial_query: String, now_ms: i64) -> (r: Pipeline)
        ensures
            r.wf(),
            r@ == (PipelineView {
                limit: config.limit,
                debounce_ms: config.debounce_ms,
                ingest_cap: config.ingest_cap,
                tick_budget: config.tick_budget,
                sessions: Seq::<SessionView>::empty(),
                query: initial_query@,
                last_query: initial_query@,
                query_dirty: true,
                results_dirty: true,
                last_rebuild_at: now_ms,
                next_job_id: 1u64,
                pending_job: None::<u64>,
                stream_finished: false,
                results: Seq::<ResultView>::empty(),
            }),
    {
        let last_query = initial_query.clone();
        let r = Pipeline {
            limit: config.limit,
            debounce_ms: config.debounce_ms,
            ingest_cap: config.ingest_cap,
            tick_budget: config.tick_budget,
            sessions: Vec::new(),
            index: CoarseIndex::new(),
            query: initial_query,
            last_query,
            query_dirty: true,
            results_dirty: true,
            last_rebuild_at: now_ms,
            next_job_id: 1,
            pending_job: None,
            stream_finished: false,
            results: Vec::new(),
        };
        proof {
            assert(r.index.ids() =~= Seq::new(r.sessions@.len(), |i: int| i as u64));
            assert(session_views(r.sessions@) =~= Seq::<SessionView>::empty());
            assert(result_views(r.results@) =~= Seq::<ResultView>::empty());
        }
        r
    }

    /// Drains one tick's worth of inbound records into the live set and the
    /// coarse index, and records stream disconnection.  One call accepts at
    /// most `ingest_cap` records — the per-tick backpressure bound.
    pub fn ingest(&mut self, incoming: Vec<Session>, stream_closed: bool)
        requires
            old(self).wf(),
            incoming@.len() <= old(self)@.ingest_cap,
        ensures
            final(self).wf(),
            final(self)@ == ingested(old(self)@, session_views(incoming@), stream_closed),
    {
        let ghost pre = self@;
        let n = incoming.len();
        let any = n > 0;
        for i in 0..n
            invariant
                n == incoming.len(),
                self.wf(),
                self@ == (PipelineView {
                    sessions: pre.sessions + session_views(incoming@).take(i as int),
                    ..pre
                }),
        {
            let s = incoming[i].clone();
            let id = self.sessions.len() as u64;
            let ghost mid = self@;
            self.index.push(id, s.search_blob.as_str());
            self.sessions.push(s);
            proof {
                assert(self.index.ids() =~= Seq::new(self.sessions@.len(), |k: int| k as u64));
                assert(session_views(self.sessions@) =~= mid.sessions.push(
                    incoming@[i as int]@,
                ));
                assert(pre.sessions + session_views(incoming@).take(i + 1) =~= mid.sessions.push(
                    incoming@[i as int]@,
                ));
            }
        }
        if any || stream_closed {
            self.results_dirty = true;
        }
        if stream_closed {
            self.stream_finished = true;
        }
        proof {
            assert(session_views(incoming@).take(n as int) =~= session_views(incoming@));
            assert(self@ =~= ingested(pre, session_views(incoming@), stream_closed));
        }
    }

    /// Records a query edit: both dirty flags rise synchronously, before
    /// the next tick's rebuild decision.
    pub fn set_query(&mut self, q: String)
        requires
            old(self).wf(),
        ensures
            final(self).wf(),
            final(self)@ == edited(old(self)@, q@),
    {
        self.query = q;
        self.query_dirty = true;
        self.results_dirty = true;
    }

    /// One orchestrator tick at clock `now_ms`: reparse a dirty query into
    /// the index, advance index work, and dispatch a ranking job when
    /// something is dirty (or the index reports change) and the debounce
    /// interval has elapsed.  A dispatch is owed whenever results are dirty
    /// and the interval has elapsed; no dispatch ever happens inside the
    /// interval.
    pub fn tick(&mut self, now_ms: i64) -> (job: Option<Job>)
        requires
            old(self).wf(),
        ensures
            final(self).wf(),
            ({
                let mid = after_reparse(old(self)@);
                &&& (match job {
                    Some(j) => {
                        &&& tick_eligible(mid, now_ms)
                        &&& final(self)@ == dispatched(mid, now_ms)
                        &&& j@ == dispatch_job(mid)
                    },
                    None => final(self)@ == mid,
                })
                &&& (mid.results_dirty && tick_eligible(mid, now_ms) ==> job is Some)
            }),
    {
        if self.query_dirty {
            let qc = chars_vec(self.query.as_str());
            let lc = chars_vec(self.last_query.as_str());
            let append = qc.len() > lc.len() && is_prefix_chars(&lc, &qc);
            proof {
                assert(append == append_hint_spec(self.last_query@, self.query@));
            }
            self.index.reparse(self.query.as_str(), append);
            self.last_query = self.query.clone();
            self.query_dirty = false;
            self.results_dirty = true;
        }
        let changed = self.index.tick(self.tick_budget);
        let ghost mid = after_reparse(old(self)@);
        proof {
            assert(self@ =~= mid);
        }
        let eligible = match now_ms.checked_sub(self.last_rebuild_at) {
            Some(d) => d >= self.debounce_ms,
            None => now_ms > self.last_rebuild_at,
        };
        proof {
            assert(eligible == tick_eligible(mid, now_ms));
        }
        if (self.results_dirty || changed) && eligible {
            let candidates = if self.query.as_str().is_empty() {
                clone_sessions(&self.sessions, self.limit)
            } else {
                clone_sessions(&self.sessions, self.sessions.len())
            };
            proof {
                if mid.query.len() != 0 {
                    assert(session_views(self.sessions@).take(
                        min(self.sessions@.len() as int, self.sessions@.len() as int),
                    ) =~= session_views(self.sessions@));
                }
                assert(session_views(candidates@) == candidates_spec(mid));
            }
            let id = self.next_job_id;
            self.next_job_id = if self.next_job_id == u64::MAX {
                0
            } else {
                self.next_job_id + 1
            };
            self.pending_job = Some(id);
            self.last_rebuild_at = now_ms;
            let j = Job { id, query: self.query.clone(), candidates, limit: self.limit };
            proof {
                assert(self@ =~= dispatched(mid, now_ms));
                assert(j@ =~= dispatch_job(mid));
            }
            Some(j)
        } else {
            None
        }
    }

    /// Applies a worker result exactly when its job id is still the
    /// pending one; results of superseded jobs are discarded unchanged.
    /// This id comparison is the sole cancellation mechanism.
    pub fn apply_result(&mut self, id: u64, results: Vec<SearchResult>) -> (is_applied: bool)
        requires
            old(self).wf(),
        ensures
            final(self).wf(),
            is_applied == (old(self)@.pending_job == Some(id)),
            is_applied ==> final(self)@ == applied(old(self)@, result_views(results@)),
            !is_applied ==> final(self)@ == old(self)@,
    {
        let matches_pending = match self.pending_job {
            Some(p) => p == id,
            None => false,
        };
        if matches_pending {
            self.results = results;
            self.pending_job = None;
            self.results_dirty = false;
            true
        } else {
            false
        }
    }

    /// The currently displayed results.
    pub fn results(&self) -> (r: &Vec<SearchResult>)
        ensures
            result_views(r@) == self@.results,
    {
        &self.results
    }

    /// The current query text.
    pub fn query(&self) -> (r: &String)
        ensures
            r@ == self@.query,
    {
        &self.query
    }

    /// How many sessions have been ingested.
    pub fn session_count(&self) -> (r: usize)
        ensures
            r == self@.sessions.len(),
    {
        self.sessions.len()
    }

    /// Whether the inbound stream has disconnected.
    pub fn is_stream_finished(&self) -> (r: bool)
        ensures
            r == self@.stream_finished,
    {
        self.stream_finished
    }

    /// The per-tick ingestion cap.
    pub fn ingest_cap(&self) -> (r: usize)
        ensures
            r == self@.ingest_cap,
    {
        self.ingest_cap
    }

    /// The result-list cap.
    pub fn limit(&self) -> (r: usize)
        ensures
            r == self@.limit,
    {
        self.limit
    }

    /// The id of the last dispatched, not yet superseded job.
    pub fn pending_job(&self) -> (r: Option<u64>)
        ensures
            r == self@.pending_job,
    {
        self.pending_job
    }
}

/// Copies the first `k` sessions (or all of them, if fewer).
pub fn clone_sessions(v: &Vec<Session>, k: usize) -> (r: Vec<Session>)
    ensures
        session_views(r@) == session_views(v@).take(min(k as int, v@.len() as int)),
{
    let m = if k < v.len() {
        k
    } else {
        v.len()
    };
    let mut out: Vec<Session> = Vec::new();
    for i in 0..m
        invariant
            m <= v.len(),
            m == min(k as int, v@.len() as int),
            out@.len() == i,
            forall|j: int| 0 <= j < i ==> out@[j]@ == v@[j]@,
    {
        out.push(v[i].clone());
    }
    proof {
        assert(session_views(out@) =~= session_views(v@).take(m as int));
    }
    out
}

/// Copies a result list.
pub fn clone_results(v: &Vec<SearchResult>) -> (r: Vec<SearchResult>)
    ensures
        result_views(r@) == result_views(v@),
{
    let mut out: Vec<SearchResult> = Vec::new();
    let n = v.len();
    for i in 0..n
        invariant
            n == v.len(),
            out@.len() == i,
            forall|j: int| 0 <= j < i ==> out@[j]@ == v@[j]@,
    {
        out.push(v[i].clone());
    }
    proof {
        assert(result_views(out@) =~= result_views(v@));
    }
    out
}

/// One ranking pass of the background worker: runs the batch ranker over
/// the job's frozen candidates with a freshly built scorer at clock `now`,
/// and tags the result with the job's id.
pub fn worker_step(job: &Job, now: i64) -> (r: (u64, Vec<SearchResult>))
    ensures
        r.0 == job@.id,
        result_views(r.1@) == crate::rank::rank_candidates_spec(
            job@.candidates,
            job@.query,
            job@.limit as int,
            now,
        ),
{
    let results = crate::rank::rank_candidates(&job.candidates, job.query.as_str(), job.limit, now);
    (job.id, results)
}

/// One external happening the orchestrator reacts to: a drained batch of
/// inbound records (with the stream's disconnection flag), a query edit, a
/// clock tick, or a worker's tagged result.
pub enum PipelineEvent {
    Ingest(Vec<Session>, bool),
    QueryEdit(String),
    Tick(i64),
    WorkerResult(u64, Vec<SearchResult>),
}

/// The ghost sequence of job models in a vector.
pub open spec fn job_views(s: Seq<Job>) -> Seq<JobView> {
    Seq::new(s.len(), |i: int| s[i]@)
}

/// The jobs of a dispatch trace, without their dispatch times.
pub open spec fn pair_jobs(pairs: Seq<(i64, JobView)>) -> Seq<JobView> {
    Seq::new(pairs.len(), |i: int| pairs[i].1)
}

/// The model of a fresh pipeline.
pub open spec fn init_view(config: PipelineConfig, initial_query: Seq<char>, now_ms: i64) -> PipelineView {
    PipelineView {
        limit: config.limit,
        debounce_ms: config.debounce_ms,
        ingest_cap: config.ingest_cap,
        tick_budget: config.tick_budget,
        sessions: Seq::<SessionView>::empty(),
        query: initial_query,
        last_query: initial_query,
        query_dirty: true,
        results_dirty: true,
        last_rebuild_at: now_ms,
        next_job_id: 1u64,
        pending_job: None::<u64>,
        stream_finished: false,
        results: Seq::<ResultView>::empty(),
    }
}

/// One step of the orchestrator's state machine.  `bit` stands for the
/// coarse index's change report on a tick, which depends on worker timing:
/// every statement proved over `step_spec` holds for either value of it.
pub open spec fn step_spec(st: PipelineView, ev: PipelineEvent, bit: bool) -> (
    PipelineView,
    Option<(i64, JobView)>,
) {
    match ev {
        PipelineEvent::Ingest(v, closed) => (ingested(st, session_views(v@), closed), None),
        PipelineEvent::QueryEdit(q) => (edited(st, q@), None),
        PipelineEvent::Tick(now) => {
            let mid = after_reparse(st);
            if (mid.results_dirty || bit) && tick_eligible(mid, now) {
                (dispatched(mid, now), Some((now, dispatch_job(mid))))
            } else {
                (mid, None)
            }
        },
        PipelineEvent::WorkerResult(id, rs) => if st.pending_job == Some(id) {
            (applied(st, result_views(rs@)), None)
        } else {
            (st, None)
        },
    }
}

/// Folds a whole event trace through the state machine, collecting each
/// dispatched job with its dispatch time.
pub open spec fn run_fold(
    st: PipelineView,
    events: Seq<PipelineEvent>,
    oracle: Seq<bool>,
) -> (PipelineView, Seq<(i64, JobView)>)
    decreases events.len(),
{
    if events.len() == 0 {
        (st, Seq::empty())
    } else {
        let prefix = run_fold(st, events.drop_last(), oracle.drop_last());
        let stepped = step_spec(prefix.0, events.last(), oracle.last());
        match stepped.1 {
            Some(p) => (stepped.0, prefix.1.push(p)),
            None => (stepped.0, prefix.1),
        }
    }
}

/// Trace-level debounce law: along any event trace, under any index
/// behaviour, consecutive dispatches are at least the debounce interval
/// apart, the first dispatch respects the interval since construction, and
/// the rebuild clock always sits at the last dispatch.
pub proof fn lemma_run_fold_debounce(st: PipelineView, events: Seq<PipelineEvent>, oracle: Seq<bool>)
    ensures
        ({
            let f = run_fold(st, events, oracle);
            &&& f.0.debounce_ms == st.debounce_ms
            &&& f.0.last_rebuild_at == (if f.1.len() > 0 {
                f.1[f.1.len() - 1].0
            } else {
                st.last_rebuild_at
            })
            &&& (f.1.len() > 0 ==> f.1[0].0 - st.last_rebuild_at >= st.debounce_ms)
            &&& (forall|k: int|
                0 <= k < f.1.len() - 1 ==> #[trigger] f.1[k + 1].0 - f.1[k].0 >= st.debounce_ms)
        }),
    decreases events.len(),
{
    if events.len() > 0 {
        lemma_run_fold_debounce(st, events.drop_last(), oracle.drop_last());
        let prefix = run_fold(st, events.drop_last(), oracle.drop_last());
        let stepped = step_spec(prefix.0, events.last(), oracle.last());
        if stepped.1 is Some {
            let p = stepped.1->Some_0;
            assert(p.0 - prefix.0.last_rebuild_at >= prefix.0.debounce_ms);
        }
    }
}

/// Debounce law: after a dispatch at `t1`, any tick strictly inside the
/// debounce interval is ineligible, whatever query edits, ingestion or
/// worker results happen in between — none of those transitions touch
/// `last_rebuild_at` or the interval.
pub proof fn lemma_debounce(st: PipelineView, t1: i64, t2: i64)
    requires
        st.last_rebuild_at == t1,
        t2 - t1 < st.debounce_ms,
    ensures
        !tick_eligible(after_reparse(st), t2),
{
}

/// Stale-suppression law: a worker result whose id is not the pending one
/// is never applied — in particular, once job `b` supersedes job `a`, a
/// late result of `a` is discarded.
pub proof fn lemma_stale_suppression(st: PipelineView, a: u64, b: u64, rs: Seq<ResultView>)
    requires
        st.pending_job == Some(b),
        a != b,
    ensures
        st.pending_job != Some(a),
        applied(st, rs).pending_job != Some(a),
{
}

} // verus!
