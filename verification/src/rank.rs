//! The batch ranker: scores a collection of sessions against one query and
//! returns the matches ordered by match timestamp (descending), ties broken
//! by score (descending), truncated to a limit.
//!
//! Ordering is specified as a stable insertion sort, so the result is a
//! function of the inputs alone: ranking twice with the same inputs and the
//! same clock yields the same list.

use vstd::prelude::*;

use crate::search::{result_of, score_spec, Scorer};
use crate::session::{match_ts_spec, ResultView, SearchResult, Session, SessionView};
use crate::shim::{lower_of, now_unix_seconds};
use crate::text::trim_spec;
use crate::SNIPPET_CONTEXT_CHARS;

verus! {

use vstd::math::min;

/// Sessions ordered by update time, newest first.
pub open spec fn session_ge(a: SessionView, b: SessionView) -> bool {
    a.updated_at >= b.updated_at
}

/// Results ordered by match timestamp, newest first, ties broken by score,
/// highest first.
pub open spec fn result_ge(a: ResultView, b: ResultView) -> bool {
    ||| match_ts_spec(a) > match_ts_spec(b)
    ||| (match_ts_spec(a) == match_ts_spec(b) && a.score >= b.score)
}

/// Pairwise descending session order.
pub open spec fn sessions_sorted(s: Seq<SessionView>) -> bool {
    forall|i: int, j: int| 0 <= i < j < s.len() ==> session_ge(#[trigger] s[i], #[trigger] s[j])
}

/// Pairwise descending result order.
pub open spec fn results_sorted(s: Seq<ResultView>) -> bool {
    forall|i: int, j: int| 0 <= i < j < s.len() ==> result_ge(#[trigger] s[i], #[trigger] s[j])
}

/// Inserts a session after every one that compares greater-or-equal: the
/// insertion step of a stable descending sort.
pub open spec fn insert_session(s: Seq<SessionView>, x: SessionView) -> Seq<SessionView>
    decreases s.len(),
{
    if s.len() == 0 {
        seq![x]
    } else if session_ge(s[0], x) {
        seq![s[0]] + insert_session(s.drop_first(), x)
    } else {
        seq![x] + s
    }
}

/// Stable descending insertion sort of sessions by update time.
pub open spec fn isort_sessions(s: Seq<SessionView>) -> Seq<SessionView>
    decreases s.len(),
{
    if s.len() == 0 {
        Seq::empty()
    } else {
        insert_session(isort_sessions(s.drop_last()), s.last())
    }
}

/// Inserts a result after every one that compares greater-or-equal.
pub open spec fn insert_result(s: Seq<ResultView>, x: ResultView) -> Seq<ResultView>
    decreases s.len(),
{
    if s.len() == 0 {
        seq![x]
    } else if result_ge(s[0], x) {
        seq![s[0]] + insert_result(s.drop_first(), x)
    } else {
        seq![x] + s
    }
}

/// Stable descending insertion sort of results by match timestamp, then
/// score.
pub open spec fn isort_results(s: Seq<ResultView>) -> Seq<ResultView>
    decreases s.len(),
{
    if s.len() == 0 {
        Seq::empty()
    } else {
        insert_result(isort_results(s.drop_last()), s.last())
    }
}

/// When the sessions greater-or-equal to `x` form exactly the prefix of
/// length `p`, insertion places `x` at position `p`.
pub proof fn lemma_insert_session_at(s: Seq<SessionView>, x: SessionView, p: int)
    requires
        0 <= p <= s.len(),
        forall|i: int| 0 <= i < p ==> session_ge(#[trigger] s[i], x),
        forall|i: int| p <= i < s.len() ==> !session_ge(#[trigger] s[i], x),
    ensures
        insert_session(s, x) == s.take(p) + seq![x] + s.skip(p),
    decreases p,
{
    if p == 0 {
        assert(insert_session(s, x) =~= s.take(0) + seq![x] + s.skip(0));
    } else {
        let d = s.drop_first();
        lemma_insert_session_at(d, x, p - 1);
        assert(seq![s[0]] + (d.take(p - 1) + seq![x] + d.skip(p - 1)) =~= s.take(p) + seq![x]
            + s.skip(p));
    }
}

/// When the results greater-or-equal to `x` form exactly the prefix of
/// length `p`, insertion places `x` at position `p`.
pub proof fn lemma_insert_result_at(s: Seq<ResultView>, x: ResultView, p: int)
    requires
        0 <= p <= s.len(),
        forall|i: int| 0 <= i < p ==> result_ge(#[trigger] s[i], x),
        forall|i: int| p <= i < s.len() ==> !result_ge(#[trigger] s[i], x),
    ensures
        insert_result(s, x) == s.take(p) + seq![x] + s.skip(p),
    decreases p,
{
    if p == 0 {
        assert(insert_result(s, x) =~= s.take(0) + seq![x] + s.skip(0));
    } else {
        let d = s.drop_first();
        lemma_insert_result_at(d, x, p - 1);
        assert(seq![s[0]] + (d.take(p - 1) + seq![x] + d.skip(p - 1)) =~= s.take(p) + seq![x]
            + s.skip(p));
    }
}

/// The ghost sequence of session models in a vector.
pub open spec fn session_views(s: Seq<Session>) -> Seq<SessionView> {
    Seq::new(s.len(), |i: int| s[i]@)
}

/// The ghost sequence of result models in a vector.
pub open spec fn result_views(s: Seq<SearchResult>) -> Seq<ResultView> {
    Seq::new(s.len(), |i: int| s[i]@)
}

/// Scores the sessions in order, keeping the matches.
pub open spec fn scored_results_spec(
    ss: Seq<SessionView>,
    q: Seq<char>,
    ql: Seq<char>,
    now: i64,
) -> Seq<ResultView>
    decreases ss.len(),
{
    if ss.len() == 0 {
        Seq::empty()
    } else {
        let rest = scored_results_spec(ss.drop_last(), q, ql, now);
        match score_spec(ss.last(), q, ql, now, SNIPPET_CONTEXT_CHARS as int) {
            Some(oc) => rest + seq![result_of(ss.last(), oc)],
            None => rest,
        }
    }
}

/// The ranking contract over candidates taken as given: score them in
/// order with the trimmed query and its case-fold, order the matches by
/// match timestamp then score, truncate to `limit`.
pub open spec fn rank_candidates_spec(
    ss: Seq<SessionView>,
    query_raw: Seq<char>,
    limit: int,
    now: i64,
) -> Seq<ResultView> {
    let q = trim_spec(query_raw);
    let ql = lower_of(q);
    let scored = scored_results_spec(ss, q, ql, now);
    let sorted = isort_results(scored);
    sorted.take(min(limit, sorted.len() as int))
}

/// The full batch-ranking contract: the sessions are first ordered by
/// update time, newest first, then ranked as candidates.
pub open spec fn rank_spec(
    ss: Seq<SessionView>,
    query_raw: Seq<char>,
    limit: int,
    now: i64,
) -> Seq<ResultView> {
    rank_candidates_spec(isort_sessions(ss), query_raw, limit, now)
}

/// Determinism law: the ranked list is a function of the sessions, the
/// query, the limit and the clock alone — two runs over identical inputs
/// with a frozen clock yield identical ordered output.
pub proof fn lemma_rank_deterministic(
    r1: Seq<ResultView>,
    r2: Seq<ResultView>,
    ss: Seq<SessionView>,
    q: Seq<char>,
    limit: int,
    now: i64,
)
    requires
        r1 == rank_spec(ss, q, limit, now),
        r2 == rank_spec(ss, q, limit, now),
    ensures
        r1 == r2,
{
}

/// Stable insertion sort of sessions by update time, newest first.
fn sort_sessions(input: &Vec<Session>) -> (r: Vec<Session>)
    ensures
        session_views(r@) == isort_sessions(session_views(input@)),
{
    let mut out: Vec<Session> = Vec::new();
    let n = input.len();
    for i in 0..n
        invariant
            n == input.len(),
            session_views(out@) == isort_sessions(session_views(input@).take(i as int)),
            sessions_sorted(session_views(out@)),
    {
        let x = input[i].clone();
        let mut p = out.len();
        while p > 0 && out[p - 1].updated_at < x.updated_at
            invariant
                i < n == input.len(),
                p <= out.len(),
                x@ == input@[i as int]@,
                sessions_sorted(session_views(out@)),
                forall|k: int|
                    p <= k < out.len() ==> !session_ge(#[trigger] session_views(out@)[k], x@),
            decreases p,
        {
            p -= 1;
        }
        let ghost pre = session_views(out@);
        proof {
            assert(forall|k: int| 0 <= k < p ==> session_ge(#[trigger] pre[k], x@)) by {
                if p > 0 {
                    assert(session_ge(pre[p - 1], x@));
                }
            }
            lemma_insert_session_at(pre, x@, p as int);
        }
        out.insert(p, x);
        proof {
            assert(session_views(out@) =~= pre.take(p as int) + seq![input@[i as int]@]
                + pre.skip(p as int));
            assert(session_views(input@).take(i + 1).drop_last() =~= session_views(input@).take(
                i as int,
            ));
            assert(session_views(input@).take(i + 1).last() == input@[i as int]@);
        }
    }
    proof {
        assert(session_views(input@).take(n as int) =~= session_views(input@));
    }
    out
}

/// Whether `e` orders strictly after a result with match timestamp `x_ts`
/// and score `x_score`.
fn ranks_below(e: &SearchResult, x_ts: i64, x_score: i64) -> (r: bool)
    ensures
        r == !(match_ts_spec(e@) > x_ts || (match_ts_spec(e@) == x_ts && e@.score >= x_score)),
{
    let e_ts = e.match_timestamp();
    e_ts < x_ts || (e_ts == x_ts && e.score < x_score)
}

/// Stable insertion sort of results by match timestamp then score, both
/// descending.
fn sort_results(input: Vec<SearchResult>) -> (r: Vec<SearchResult>)
    ensures
        result_views(r@) == isort_results(result_views(input@)),
{
    let mut out: Vec<SearchResult> = Vec::new();
    let n = input.len();
    for i in 0..n
        invariant
            n == input.len(),
            result_views(out@) == isort_results(result_views(input@).take(i as int)),
            results_sorted(result_views(out@)),
    {
        let x = input[i].clone();
        let x_ts = x.match_timestamp();
        let mut p = out.len();
        while p > 0 && ranks_below(&out[p - 1], x_ts, x.score)
            invariant
                i < n == input.len(),
                p <= out.len(),
                x@ == input@[i as int]@,
                x_ts == match_ts_spec(x@),
                results_sorted(result_views(out@)),
                forall|k: int|
                    p <= k < out.len() ==> !result_ge(#[trigger] result_views(out@)[k], x@),
            decreases p,
        {
            p -= 1;
        }
        let ghost pre = result_views(out@);
        proof {
            assert(forall|k: int| 0 <= k < p ==> result_ge(#[trigger] pre[k], x@)) by {
                if p > 0 {
                    assert(result_ge(pre[p - 1], x@));
                }
            }
            lemma_insert_result_at(pre, x@, p as int);
        }
        out.insert(p, x);
        proof {
            assert(result_views(out@) =~= pre.take(p as int) + seq![input@[i as int]@]
                + pre.skip(p as int));
            assert(result_views(input@).take(i + 1).drop_last() =~= result_views(input@).take(
                i as int,
            ));
            assert(result_views(input@).take(i + 1).last() == input@[i as int]@);
        }
    }
    proof {
        assert(result_views(input@).take(n as int) =~= result_views(input@));
    }
    out
}

/// Ranks `sessions` against `query` at the frozen clock `now`: the matches
/// of `rank_spec`, in its order, at most `limit` of them.
pub fn rank(sessions: &Vec<Session>, query: &str, limit: usize, now: i64) -> (r: Vec<
    SearchResult,
>)
    ensures
        result_views(r@) == rank_spec(session_views(sessions@), query@, limit as int, now),
{
    let ordered = sort_sessions(sessions);
    rank_candidates(&ordered, query, limit, now)
}

/// Ranks the candidates in their given order against `query` at the frozen
/// clock `now` — the worker's ranking pass, which trusts the candidate
/// order the orchestrator froze at dispatch time.
pub fn rank_candidates(ordered: &Vec<Session>, query: &str, limit: usize, now: i64) -> (r: Vec<
    SearchResult,
>)
    ensures
        result_views(r@) == rank_candidates_spec(
            session_views(ordered@),
            query@,
            limit as int,
            now,
        ),
{
    let scorer = Scorer::with_now(query, now);
    let ghost q = trim_spec(query@);
    let ghost ql = lower_of(q);
    let mut scored: Vec<SearchResult> = Vec::new();
    let n = ordered.len();
    for i in 0..n
        invariant
            n == ordered.len(),
            scorer.wf(),
            scorer@.query == q,
            scorer@.query_lower == ql,
            scorer@.now == now,
            result_views(scored@) == scored_results_spec(
                session_views(ordered@).take(i as int),
                q,
                ql,
                now,
            ),
    {
        proof {
            assert(session_views(ordered@).take(i + 1).drop_last() =~= session_views(
                ordered@,
            ).take(i as int));
            assert(session_views(ordered@).take(i + 1).last() == ordered@[i as int]@);
        }
        let ghost pre = result_views(scored@);
        match scorer.score_session_result(&ordered[i]) {
            Some(sr) => {
                scored.push(sr);
                proof {
                    assert(result_views(scored@) =~= pre.push(
                        scored@[scored@.len() - 1]@,
                    ));
                }
            },
            None => {},
        }
    }
    proof {
        assert(session_views(ordered@).take(n as int) =~= session_views(ordered@));
    }
    let mut sorted = sort_results(scored);
    let ghost before_truncate = result_views(sorted@);
    sorted.truncate(limit);
    proof {
        assert(result_views(sorted@) =~= before_truncate.take(
            min(limit as int, before_truncate.len() as int),
        ));
    }
    sorted
}

/// Ranks `sessions` against `query` at the wall clock: the result equals
/// `rank_spec` for some reading of the clock.
pub fn search_sessions(sessions: &Vec<Session>, query: &str, limit: usize) -> (r: Vec<
    SearchResult,
>)
    ensures
        exists|now: i64|
            result_views(r@) == rank_spec(session_views(sessions@), query@, limit as int, now),
{
    let now = now_unix_seconds();
    rank(sessions, query, limit, now)
}

} // verus!
