//! The scorer: a multi-signal match score for one session against a query,
//! combining fuzzy alignment on the search blob, label and uuid, substring
//! containment, per-message scoring and a linear recency bonus.

use vstd::prelude::*;

use crate::session::{anchor_of_session, Message, MessageView, SearchResult, Session, SessionView};
use crate::shim::{
    fuzzy_match_score, fuzzy_of, lower_of, now_unix_seconds, string_from_chars, to_lowercase,
};
use crate::snippet::{snippet_from_text, snippet_spec};
use crate::session::SegView;
use crate::text::{chars_vec, contains_chars, contains_seq, trim_chars, trim_spec};
use crate::{CONTAINMENT_BONUS, MESSAGE_CONTAINMENT_BONUS, RECENCY_BASE, RECENCY_MAX_PENALTY,
    SNIPPET_CONTEXT_CHARS};

verus! {

/// `x` clamped to the `i64` range.
pub open spec fn clip_i64(x: int) -> int {
    if x > i64::MAX as int {
        i64::MAX as int
    } else if x < i64::MIN as int {
        i64::MIN as int
    } else {
        x
    }
}

/// Saturating `i64` addition.
pub fn sat_add64(a: i64, b: i64) -> (r: i64)
    ensures
        r as int == clip_i64(a as int + b as int),
{
    match a.checked_add(b) {
        Some(v) => v,
        None => if b > 0 {
            i64::MAX
        } else {
            i64::MIN
        },
    }
}

/// Saturating doubling.
pub fn sat_double64(a: i64) -> (r: i64)
    ensures
        r as int == clip_i64(2 * a as int),
{
    match a.checked_mul(2) {
        Some(v) => v,
        None => if a > 0 {
            i64::MAX
        } else {
            i64::MIN
        },
    }
}

/// Saturating tripling.
pub fn sat_triple64(a: i64) -> (r: i64)
    ensures
        r as int == clip_i64(3 * a as int),
{
    match a.checked_mul(3) {
        Some(v) => v,
        None => if a > 0 {
            i64::MAX
        } else {
            i64::MIN
        },
    }
}

/// The recency bonus for a record of age `now - anchor`: the base minus the
/// age in whole minutes, the age clamped to `[0, RECENCY_MAX_PENALTY]`.
/// Monotonically non-increasing in age; floors at base minus cap.
pub open spec fn recency_spec(anchor: i64, now: i64) -> int {
    let diff = now - anchor;
    let m = if diff <= 0 {
        0
    } else {
        diff / 60
    };
    let m2 = if m > RECENCY_MAX_PENALTY as int {
        RECENCY_MAX_PENALTY as int
    } else {
        m
    };
    RECENCY_BASE as int - m2
}

/// The recency bonus always lies between the floor and the base.
pub proof fn lemma_recency_range(anchor: i64, now: i64)
    ensures
        RECENCY_BASE - RECENCY_MAX_PENALTY <= recency_spec(anchor, now) <= RECENCY_BASE,
{
}

/// A more recent anchor never earns a smaller bonus.
pub proof fn lemma_recency_monotonic(a1: i64, a2: i64, now: i64)
    requires
        a1 >= a2,
    ensures
        recency_spec(a1, now) >= recency_spec(a2, now),
{
    let d1 = now - a1;
    let d2 = now - a2;
    if d1 > 0 && d2 > 0 {
        assert(d1 / 60 <= d2 / 60) by (nonlinear_arith)
            requires
                0 < d1 <= d2,
        ;
    }
}

/// Computes the recency bonus of a record anchored at `updated_at`.
pub fn recency_bonus(updated_at: i64, now: i64) -> (r: i64)
    ensures
        r as int == recency_spec(updated_at, now),
        RECENCY_BASE - RECENCY_MAX_PENALTY <= r <= RECENCY_BASE,
{
    if now <= updated_at {
        return RECENCY_BASE;
    }
    let d = match now.checked_sub(updated_at) {
        Some(d) => d,
        None => i64::MAX,
    };
    let m = (d as u64) / 60;
    if m >= RECENCY_MAX_PENALTY as u64 {
        proof {
            if now - updated_at > i64::MAX as int {
                assert((now - updated_at) / 60 >= RECENCY_MAX_PENALTY as int) by (nonlinear_arith)
                    requires
                        now - updated_at > i64::MAX as int,
                ;
            }
        }
        RECENCY_BASE - RECENCY_MAX_PENALTY
    } else {
        RECENCY_BASE - (m as i64)
    }
}

/// The fuzzy score of `text` against `q`, with an absent match counting as
/// zero.
pub open spec fn fuzzy0(text: Seq<char>, q: Seq<char>) -> int {
    match fuzzy_of(text, q) {
        Some(v) => v as int,
        None => 0,
    }
}

/// A message's match value: its fuzzy score plus a containment bonus.
pub open spec fn msg_total_spec(m: MessageView, q: Seq<char>, ql: Seq<char>) -> int {
    let f = fuzzy0(m.full_text, q);
    if contains_seq(lower_of(m.full_text), ql) {
        clip_i64(f + MESSAGE_CONTAINMENT_BONUS as int)
    } else {
        f
    }
}

/// The best-scoring message: index and value of the first message whose
/// value strictly exceeds every earlier one.
pub open spec fn best_msg_spec(msgs: Seq<MessageView>, q: Seq<char>, ql: Seq<char>) -> (
    Option<int>,
    int,
)
    decreases msgs.len(),
{
    if msgs.len() == 0 {
        (None::<int>, i64::MIN as int)
    } else {
        let p = best_msg_spec(msgs.drop_last(), q, ql);
        let t = msg_total_spec(msgs.last(), q, ql);
        if t > p.1 {
            (Some(msgs.len() - 1), t)
        } else {
            p
        }
    }
}

/// Whether any of blob, label or uuid contains the (case-folded) query.
pub open spec fn contains_any(s: SessionView, ql: Seq<char>) -> bool {
    ||| contains_seq(lower_of(s.search_blob), ql)
    ||| contains_seq(lower_of(s.label), ql)
    ||| contains_seq(lower_of(s.uuid), ql)
}

/// Whether a session matches a non-empty query at all: some fuzzy match on
/// blob, label or uuid, or some substring containment.
pub open spec fn session_matches(s: SessionView, q: Seq<char>, ql: Seq<char>) -> bool {
    ||| fuzzy_of(s.search_blob, q) is Some
    ||| fuzzy_of(s.label, q) is Some
    ||| fuzzy_of(s.uuid, q) is Some
    ||| contains_any(s, ql)
}

/// What scoring one session yields: the score, the best-matching message
/// and the rendered snippet.
pub ghost struct ScoreOutcome {
    pub score: int,
    pub matched: Option<MessageView>,
    pub snippet: Seq<SegView>,
}

/// The result a scoring outcome produces for a session.
pub open spec fn result_of(s: SessionView, oc: ScoreOutcome) -> crate::session::ResultView {
    crate::session::ResultView {
        session: s,
        matched_message: oc.matched,
        score: oc.score as i64,
        snippet: oc.snippet,
    }
}

/// The outcome for an empty (or whitespace-only) query: pure recency, the
/// first message as preview, a plain leading excerpt.
pub open spec fn empty_query_outcome(s: SessionView, now: i64, context: int) -> ScoreOutcome {
    let source = if s.messages.len() > 0 {
        s.messages[0].full_text
    } else {
        s.label
    };
    ScoreOutcome {
        score: recency_spec(anchor_of_session(s), now),
        matched: if s.messages.len() > 0 {
            Some(s.messages[0])
        } else {
            None
        },
        snippet: snippet_spec(source, Seq::empty(), context),
    }
}

/// The anchor of a scored session: best message's timestamp, else the
/// session's latest message time, else its update time.
pub open spec fn nonempty_anchor(s: SessionView, best_idx: Option<int>) -> i64 {
    match best_idx {
        Some(i) => match s.messages[i].timestamp {
            Some(t) => t,
            None => anchor_of_session(s),
        },
        None => anchor_of_session(s),
    }
}

/// The snippet source of a scored session: the best message's text, else
/// the label or blob when one contains the query, else the label.
pub open spec fn nonempty_snippet_source(s: SessionView, best_idx: Option<int>, ql: Seq<char>) -> Seq<char> {
    match best_idx {
        Some(i) => s.messages[i].full_text,
        None => if contains_seq(lower_of(s.label), ql) {
            s.label
        } else if contains_seq(lower_of(s.search_blob), ql) {
            s.search_blob
        } else {
            s.label
        },
    }
}

/// The combined score for a matching session: twice the blob fuzzy score,
/// three times the label's, once the uuid's, a containment bonus, the best
/// message's value when positive, and the recency bonus — each step
/// saturating in `i64`.
pub open spec fn nonempty_score(s: SessionView, q: Seq<char>, ql: Seq<char>, now: i64) -> int {
    let best = best_msg_spec(s.messages, q, ql);
    let best_value = if best.1 > 0 {
        best.1
    } else {
        0
    };
    let s1 = clip_i64(2 * fuzzy0(s.search_blob, q));
    let s2 = clip_i64(s1 + clip_i64(3 * fuzzy0(s.label, q)));
    let s3 = clip_i64(s2 + fuzzy0(s.uuid, q));
    let s4 = if contains_any(s, ql) {
        clip_i64(s3 + CONTAINMENT_BONUS as int)
    } else {
        s3
    };
    let s5 = if best_value > 0 {
        clip_i64(s4 + best_value)
    } else {
        s4
    };
    clip_i64(s5 + recency_spec(nonempty_anchor(s, best.0), now))
}

/// The outcome for a matching session under a non-empty query.
pub open spec fn nonempty_outcome(
    s: SessionView,
    q: Seq<char>,
    ql: Seq<char>,
    now: i64,
    context: int,
) -> ScoreOutcome {
    let best = best_msg_spec(s.messages, q, ql);
    ScoreOutcome {
        score: nonempty_score(s, q, ql, now),
        matched: match best.0 {
            Some(i) => Some(s.messages[i]),
            None => None,
        },
        snippet: snippet_spec(nonempty_snippet_source(s, best.0, ql), ql, context),
    }
}

/// The full scoring contract: every session matches an empty query with a
/// pure recency score; under a non-empty query a session is excluded
/// exactly when nothing fuzzy-matches and nothing contains the query.
pub open spec fn score_spec(
    s: SessionView,
    q: Seq<char>,
    ql: Seq<char>,
    now: i64,
    context: int,
) -> Option<ScoreOutcome> {
    if q.len() == 0 {
        Some(empty_query_outcome(s, now, context))
    } else if !session_matches(s, q, ql) {
        None
    } else {
        Some(nonempty_outcome(s, q, ql, now, context))
    }
}

/// The anchor a session's score decays from: its own anchor under an empty
/// query, else the best message's timestamp with the session's anchor as
/// fallback.
pub open spec fn score_anchor(s: SessionView, q: Seq<char>, ql: Seq<char>) -> i64 {
    if q.len() == 0 {
        anchor_of_session(s)
    } else {
        nonempty_anchor(s, best_msg_spec(s.messages, q, ql).0)
    }
}

/// Empty-query law: every session matches an empty query, and its score is
/// exactly the recency bonus of its anchor.
pub proof fn lemma_empty_query_score(s: SessionView, ql: Seq<char>, now: i64, context: int)
    ensures
        score_spec(s, Seq::empty(), ql, now, context) is Some,
        score_spec(s, Seq::empty(), ql, now, context)->Some_0.score == recency_spec(
            anchor_of_session(s),
            now,
        ),
{
}

/// Rejection law: under a non-empty query, a session is excluded exactly
/// when none of its blob, label or uuid fuzzy-matches the query and none
/// contains it case-insensitively.
pub proof fn lemma_rejection(s: SessionView, q: Seq<char>, ql: Seq<char>, now: i64, context: int)
    requires
        q.len() > 0,
    ensures
        score_spec(s, q, ql, now, context) is None <==> !session_matches(s, q, ql),
{
}

/// Messages with the same texts have the same best-message scan.
proof fn lemma_best_msg_texts(m1: Seq<MessageView>, m2: Seq<MessageView>, q: Seq<char>, ql: Seq<char>)
    requires
        m1.len() == m2.len(),
        forall|i: int| 0 <= i < m1.len() ==> (#[trigger] m1[i]).full_text == m2[i].full_text,
    ensures
        best_msg_spec(m1, q, ql) == best_msg_spec(m2, q, ql),
    decreases m1.len(),
{
    if m1.len() > 0 {
        lemma_best_msg_texts(m1.drop_last(), m2.drop_last(), q, ql);
        assert(m1.last().full_text == m2.last().full_text);
    }
}

/// Recency-monotonicity law: two sessions with identical text content
/// (uuid, label, blob and message texts) match alike, and the one whose
/// anchor is at least as recent scores at least as high.
pub proof fn lemma_recency_monotonicity(
    s1: SessionView,
    s2: SessionView,
    q: Seq<char>,
    ql: Seq<char>,
    now: i64,
    context: int,
)
    requires
        s1.uuid == s2.uuid,
        s1.label == s2.label,
        s1.search_blob == s2.search_blob,
        s1.messages.len() == s2.messages.len(),
        forall|i: int|
            0 <= i < s1.messages.len() ==> (#[trigger] s1.messages[i]).full_text
                == s2.messages[i].full_text,
        score_anchor(s1, q, ql) >= score_anchor(s2, q, ql),
    ensures
        score_spec(s1, q, ql, now, context) is Some <==> score_spec(s2, q, ql, now, context)
            is Some,
        (score_spec(s1, q, ql, now, context) is Some && score_spec(s2, q, ql, now, context)
            is Some) ==> score_spec(s1, q, ql, now, context)->Some_0.score >= score_spec(
            s2,
            q,
            ql,
            now,
            context,
        )->Some_0.score,
{
    lemma_recency_monotonic(score_anchor(s1, q, ql), score_anchor(s2, q, ql), now);
    if q.len() == 0 {
    } else {
        lemma_best_msg_texts(s1.messages, s2.messages, q, ql);
        assert(session_matches(s1, q, ql) == session_matches(s2, q, ql));
        if session_matches(s1, q, ql) {
            let best = best_msg_spec(s1.messages, q, ql);
            let best_value = if best.1 > 0 {
                best.1
            } else {
                0
            };
            let s1a = clip_i64(2 * fuzzy0(s1.search_blob, q));
            let s2a = clip_i64(s1a + clip_i64(3 * fuzzy0(s1.label, q)));
            let s3a = clip_i64(s2a + fuzzy0(s1.uuid, q));
            let s4a = if contains_any(s1, ql) {
                clip_i64(s3a + CONTAINMENT_BONUS as int)
            } else {
                s3a
            };
            let s5a = if best_value > 0 {
                clip_i64(s4a + best_value)
            } else {
                s4a
            };
            assert(nonempty_score(s1, q, ql, now) == clip_i64(
                s5a + recency_spec(score_anchor(s1, q, ql), now),
            ));
            assert(nonempty_score(s2, q, ql, now) == clip_i64(
                s5a + recency_spec(score_anchor(s2, q, ql), now),
            ));
        }
    }
}

/// Ghost model of a scorer: the trimmed query, its case-folded form, the
/// reference clock and the emptiness flag.
pub ghost struct ScorerView {
    pub query: Seq<char>,
    pub query_lower: Seq<char>,
    pub now: i64,
    pub empty: bool,
}

/// The scorer: a fixed query, its case-folded form and a reference clock.
pub struct Scorer {
    query: String,
    query_lower: String,
    now: i64,
    is_empty_query: bool,
}

impl View for Scorer {
    type V = ScorerView;

    closed spec fn view(&self) -> ScorerView {
        ScorerView {
            query: self.query@,
            query_lower: self.query_lower@,
            now: self.now,
            empty: self.is_empty_query,
        }
    }
}

impl Scorer {
    /// The scorer's internal consistency: the lower query is the case-fold
    /// of the trimmed query, and emptiness reflects the trimmed query.
    pub open spec fn wf(&self) -> bool {
        &&& self@.query_lower == lower_of(self@.query)
        &&& self@.empty == (self@.query.len() == 0)
        &&& self@.empty ==> self@.query_lower.len() == 0
    }

    /// Builds a scorer for `query` against the given reference clock.
    pub fn with_now(query: &str, now: i64) -> (r: Scorer)
        ensures
            r.wf(),
            r@.query == trim_spec(query@),
            r@.now == now,
    {
        let cs = chars_vec(query);
        let t = trim_chars(&cs);
        let trimmed = string_from_chars(&t);
        let query_lower = to_lowercase(trimmed.as_str());
        let is_empty_query = trimmed.as_str().is_empty();
        Scorer { query: trimmed, query_lower, now, is_empty_query }
    }

    /// Builds a scorer for `query` against the wall clock.
    pub fn new(query: &str) -> (r: Scorer)
        ensures
            r.wf(),
            r@.query == trim_spec(query@),
    {
        let now = now_unix_seconds();
        Scorer::with_now(query, now)
    }

    /// Whether the trimmed query is empty.
    pub fn is_query_empty(&self) -> (r: bool)
        ensures
            r == self@.empty,
    {
        self.is_empty_query
    }

    /// Scores one session: `None` exactly when the session does not match;
    /// otherwise the score, best message and snippet of `score_spec`.  A
    /// matching session carries a matched message exactly when it has
    /// messages at all.
    pub fn score_session(&self, session: &Session) -> (r: Option<(i64, Option<Message>, crate::session::Snippet)>)
        requires
            self.wf(),
        ensures
            ({
                let o = score_spec(
                    session@,
                    self@.query,
                    self@.query_lower,
                    self@.now,
                    SNIPPET_CONTEXT_CHARS as int,
                );
                match r {
                    Some(t) => {
                        &&& o is Some
                        &&& t.0 as int == o->Some_0.score
                        &&& (match t.1 {
                            Some(m) => o->Some_0.matched is Some && m@ == o->Some_0.matched->Some_0,
                            None => o->Some_0.matched is None,
                        })
                        &&& t.2@ == o->Some_0.snippet
                    },
                    None => o is None,
                }
            }),
            r matches Some(t) ==> (t.1 is Some <==> session@.messages.len() > 0),
    {
        if self.is_empty_query {
            let anchor = match session.latest_message_time {
                Some(t) => t,
                None => session.updated_at,
            };
            let score = recency_bonus(anchor, self.now);
            let preview: Option<Message> = match session.preview() {
                Some(m) => Some(m.clone()),
                None => None,
            };
            let source: &str = match &preview {
                Some(m) => m.full_text.as_str(),
                None => session.label.as_str(),
            };
            let snippet = snippet_from_text(source, self.query_lower.as_str(), SNIPPET_CONTEXT_CHARS);
            proof {
                let o = empty_query_outcome(session@, self@.now, SNIPPET_CONTEXT_CHARS as int);
                assert(snippet_spec(source@, self@.query_lower, SNIPPET_CONTEXT_CHARS as int)
                    == o.snippet);
            }
            return Some((score, preview, snippet));
        }
        let query = self.query.as_str();
        let blob_score = fuzzy_match_score(session.search_blob.as_str(), query);
        let label_score = fuzzy_match_score(session.label.as_str(), query);
        let uuid_score = fuzzy_match_score(session.uuid.as_str(), query);

        let ql_chars = chars_vec(self.query_lower.as_str());
        let blob_lower = to_lowercase(session.search_blob.as_str());
        let label_lower = to_lowercase(session.label.as_str());
        let uuid_lower = to_lowercase(session.uuid.as_str());
        let blob_lower_chars = chars_vec(blob_lower.as_str());
        let label_lower_chars = chars_vec(label_lower.as_str());
        let uuid_lower_chars = chars_vec(uuid_lower.as_str());

        let blob_contains = contains_chars(&blob_lower_chars, &ql_chars);
        let label_contains = contains_chars(&label_lower_chars, &ql_chars);
        let uuid_contains = contains_chars(&uuid_lower_chars, &ql_chars);
        let matches_text = blob_contains || label_contains || uuid_contains;

        if blob_score.is_none() && label_score.is_none() && uuid_score.is_none() && !matches_text {
            return None;
        }

        let (best_idx, best_raw) = self.best_message(session);
        let best_value: i64 = if best_raw > 0 {
            best_raw
        } else {
            0
        };
        let best_message: Option<Message> = match best_idx {
            Some(i) => Some(session.messages[i].clone()),
            None => None,
        };

        let snippet = match best_idx {
            Some(i) => snippet_from_text(
                session.messages[i].full_text.as_str(),
                self.query_lower.as_str(),
                SNIPPET_CONTEXT_CHARS,
            ),
            None => if label_contains {
                snippet_from_text(
                    session.label.as_str(),
                    self.query_lower.as_str(),
                    SNIPPET_CONTEXT_CHARS,
                )
            } else if blob_contains {
                snippet_from_text(
                    session.search_blob.as_str(),
                    self.query_lower.as_str(),
                    SNIPPET_CONTEXT_CHARS,
                )
            } else {
                snippet_from_text(
                    session.label.as_str(),
                    self.query_lower.as_str(),
                    SNIPPET_CONTEXT_CHARS,
                )
            },
        };

        let b = match blob_score {
            Some(v) => v,
            None => 0,
        };
        let l = match label_score {
            Some(v) => v,
            None => 0,
        };
        let u = match uuid_score {
            Some(v) => v,
            None => 0,
        };
        let mut score = sat_double64(b);
        score = sat_add64(score, sat_triple64(l));
        score = sat_add64(score, u);
        if matches_text {
            score = sat_add64(score, CONTAINMENT_BONUS);
        }
        if best_value > 0 {
            score = sat_add64(score, best_value);
        }

        let anchor = match &best_message {
            Some(m) => match m.timestamp {
                Some(t) => t,
                None => match session.latest_message_time {
                    Some(t) => t,
                    None => session.updated_at,
                },
            },
            None => match session.latest_message_time {
                Some(t) => t,
                None => session.updated_at,
            },
        };
        score = sat_add64(score, recency_bonus(anchor, self.now));

        Some((score, best_message, snippet))
    }

    /// Scores one session into a full `SearchResult`, carrying the session
    /// itself along with the score, best message and snippet.
    pub fn score_session_result(&self, session: &Session) -> (r: Option<SearchResult>)
        requires
            self.wf(),
        ensures
            ({
                let o = score_spec(
                    session@,
                    self@.query,
                    self@.query_lower,
                    self@.now,
                    SNIPPET_CONTEXT_CHARS as int,
                );
                match r {
                    Some(sr) => o is Some && sr@ == result_of(session@, o->Some_0),
                    None => o is None,
                }
            }),
            r matches Some(sr) ==> (sr@.matched_message is Some <==> session@.messages.len()
                > 0),
    {
        match self.score_session(session) {
            Some((score, matched_message, snippet)) => {
                let r = SearchResult { session: session.clone(), matched_message, score, snippet };
                proof {
                    let o = score_spec(
                        session@,
                        self@.query,
                        self@.query_lower,
                        self@.now,
                        SNIPPET_CONTEXT_CHARS as int,
                    );
                    assert(r@ =~= result_of(session@, o->Some_0));
                }
                Some(r)
            },
            None => None,
        }
    }

    /// Scans every message and keeps the first one whose match value
    /// strictly exceeds every earlier one, per `best_msg_spec`.  A session
    /// with messages always yields one: every fuzzy score fits `i32`, so
    /// every message value beats the scan's starting floor.
    fn best_message(&self, session: &Session) -> (r: (Option<usize>, i64))
        requires
            self.wf(),
        ensures
            ({
                let b = best_msg_spec(session@.messages, self@.query, self@.query_lower);
                &&& (match r.0 {
                    Some(e) => Some(e as int) == b.0 && e < session@.messages.len(),
                    None => b.0 is None,
                })
                &&& r.1 as int == b.1
            }),
            r.0 is Some <==> session@.messages.len() > 0,
    {
        let ghost msgs = session@.messages;
        let ql_chars = chars_vec(self.query_lower.as_str());
        let mut best_idx: Option<usize> = None;
        let mut best_score: i64 = i64::MIN;
        let n = session.messages.len();
        for i in 0..n
            invariant
                self.wf(),
                n == session.messages.len(),
                msgs == session@.messages,
                ql_chars@ == self@.query_lower,
                best_idx is Some <==> i > 0,
                ({
                    let b = best_msg_spec(msgs.take(i as int), self@.query, self@.query_lower);
                    &&& (match best_idx {
                        Some(e) => Some(e as int) == b.0 && e < i,
                        None => b.0 is None,
                    })
                    &&& best_score as int == b.1
                }),
        {
            proof {
                assert(msgs.take(i + 1).drop_last() =~= msgs.take(i as int));
                assert(msgs.take(i + 1).last() == msgs[i as int]);
            }
            let m = &session.messages[i];
            let fz = fuzzy_match_score(m.full_text.as_str(), self.query.as_str());
            let f = match fz {
                Some(v) => v,
                None => 0,
            };
            let m_lower = to_lowercase(m.full_text.as_str());
            let m_lower_chars = chars_vec(m_lower.as_str());
            let contains = contains_chars(&m_lower_chars, &ql_chars);
            let total = if contains {
                sat_add64(f, MESSAGE_CONTAINMENT_BONUS)
            } else {
                f
            };
            proof {
                assert(total > i64::MIN);
            }
            if total > best_score {
                best_score = total;
                best_idx = Some(i);
            }
        }
        proof {
            assert(msgs.take(n as int) =~= msgs);
        }
        (best_idx, best_score)
    }
}

} // verus!
