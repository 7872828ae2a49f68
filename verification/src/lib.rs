//! A fuzzy-search engine over conversation session transcripts.
//!
//! The crate ranks sessions against a user query with a multi-signal score
//! (fuzzy matches on the search blob, label and uuid, substring containment,
//! per-message scoring and a recency bonus), renders highlighted snippets,
//! and drives a debounced background-rescoring pipeline with stale-result
//! suppression.

use vstd::prelude::*;

pub mod display;
pub mod filename;
pub mod index;
pub mod pipeline;
pub mod rank;
pub mod search;
pub mod session;
pub mod shim;
pub mod snippet;
pub mod text;
pub mod util;

verus! {

/// Default number of results a ranking pass returns.
pub const DEFAULT_LIMIT: usize = 20;

/// The linear recency bonus starts from this value at age zero.
pub const RECENCY_BASE: i64 = 50_000;

/// The recency penalty (age in minutes) is clamped to this value.
pub const RECENCY_MAX_PENALTY: i64 = 45_000;

/// Score term a session gains when any of its text fields contains the
/// query as a case-insensitive substring.
pub const CONTAINMENT_BONUS: i64 = 10_000;

/// Score term a message gains when it contains the query as a
/// case-insensitive substring.
pub const MESSAGE_CONTAINMENT_BONUS: i64 = 6_000;

/// Half-width, in characters, of the context shown on each side of a
/// snippet match.
pub const SNIPPET_CONTEXT_CHARS: usize = 60;

/// Byte cap on a session's search blob.
pub const SEARCH_BLOB_LIMIT: usize = 65536;

/// Codepoint cap on a message's retained full text.
pub const MAX_MESSAGE_CHARS: usize = 8192;

use crate::pipeline::{
    clone_sessions, clone_results, init_view, job_views, pair_jobs, run_fold, Job, JobView,
    Pipeline, PipelineConfig, PipelineEvent,
};
use crate::rank::{result_views, session_views};

/// Drives the orchestrator over a pre-collected event trace: each event is
/// one ingestion drain, query edit, clock tick or worker result, in order.
/// The final state and the dispatched jobs equal the state-machine fold of
/// the trace for some behaviour of the coarse index's change bit — so every
/// law proved over `run_fold` (notably the debounce law) holds of any run.
pub fn run(config: PipelineConfig, initial_query: String, start_ms: i64, events: Vec<
    PipelineEvent,
>) -> (r: (Pipeline, Vec<Job>))
    requires
        forall|i: int|
            0 <= i < events@.len() ==> match #[trigger] events@[i] {
                PipelineEvent::Ingest(v, _) => v@.len() <= config.ingest_cap,
                _ => true,
            },
    ensures
        r.0.wf(),
        exists|oracle: Seq<bool>|
            {
                let f = #[trigger] run_fold(
                    init_view(config, initial_query@, start_ms),
                    events@,
                    oracle,
                );
                &&& oracle.len() == events@.len()
                &&& r.0@ == f.0
                &&& job_views(r.1@) == pair_jobs(f.1)
            },
{
    let ghost iq = initial_query@;
    let ghost init = init_view(config, iq, start_ms);
    let mut pl = Pipeline::new(config, initial_query, start_ms);
    proof {
        assert(pl@ =~= init);
    }
    let mut jobs: Vec<Job> = Vec::new();
    let ghost mut oracle: Seq<bool> = Seq::empty();
    let ghost mut pairs: Seq<(i64, JobView)> = Seq::empty();
    let n = events.len();
    for i in 0..n
        invariant
            n == events.len(),
            pl.wf(),
            pl@.ingest_cap == config.ingest_cap,
            forall|k: int|
                0 <= k < events@.len() ==> match #[trigger] events@[k] {
                    PipelineEvent::Ingest(v, _) => v@.len() <= config.ingest_cap,
                    _ => true,
                },
            oracle.len() == i,
            (pl@, pairs) == run_fold(init, events@.take(i as int), oracle),
            jobs@.len() == pairs.len(),
            forall|k: int| 0 <= k < pairs.len() ==> (#[trigger] jobs@[k])@ == pairs[k].1,
    {
        proof {
            assert(events@.take(i + 1).drop_last() =~= events@.take(i as int));
            assert(events@.take(i + 1).last() == events@[i as int]);
        }
        let ghost pre = pl@;
        let ghost prepairs = pairs;
        let ghost pre_oracle = oracle;
        match &events[i] {
            PipelineEvent::Ingest(v, closed) => {
                let copy = clone_sessions(v, v.len());
                proof {
                    assert(session_views(copy@) =~= session_views(v@));
                    oracle = oracle.push(false);
                }
                pl.ingest(copy, *closed);
            },
            PipelineEvent::QueryEdit(q) => {
                proof {
                    oracle = oracle.push(false);
                }
                pl.set_query(q.clone());
            },
            PipelineEvent::Tick(t) => {
                let job = pl.tick(*t);
                proof {
                    oracle = oracle.push(job is Some);
                }
                match job {
                    Some(j) => {
                        proof {
                            pairs = pairs.push((*t, j@));
                        }
                        jobs.push(j);
                    },
                    None => {},
                }
            },
            PipelineEvent::WorkerResult(id, rs) => {
                let copy = clone_results(rs);
                proof {
                    assert(result_views(copy@) =~= result_views(rs@));
                    oracle = oracle.push(false);
                }
                let _ = pl.apply_result(*id, copy);
            },
        }
        proof {
            assert(oracle.drop_last() =~= pre_oracle);
            assert((pl@, pairs) == run_fold(init, events@.take(i + 1), oracle));
        }
    }
    proof {
        assert(events@.take(n as int) =~= events@);
        assert(job_views(jobs@) =~= pair_jobs(pairs));
    }
    (pl, jobs)
}

} // verus!

