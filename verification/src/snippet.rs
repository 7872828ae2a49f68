//! Snippet extraction: a whitespace-normalized window of the source text
//! around the first case-insensitive occurrence of the query, with the match
//! highlighted and truncation marked on either side.
//!
//! All positions are Unicode-codepoint indices.

use vstd::prelude::*;

use crate::session::{SegView, Snippet, SnippetSegment};
use crate::shim::{lower_of, string_from_chars, to_lowercase};
use crate::text::{
    chars_vec, find_chars, find_spec, is_ws_char, normalize_chars, normalize_ws_spec, slice_chars,
    take_chars, trim_chars, trim_spec,
};

verus! {

use vstd::math::min;

/// A plain, non-highlighted segment.
pub open spec fn plain_seg(text: Seq<char>) -> SegView {
    SegView { text, highlighted: false }
}

/// The truncation-marker segment.
pub open spec fn ellipsis_seg() -> SegView {
    plain_seg(seq!['…'])
}

/// The snippet for a text with no usable match: the leading `2×context`
/// codepoints, normalized and trimmed, as one segment.
pub open spec fn leading_snippet_spec(text: Seq<char>, context: int) -> Seq<SegView> {
    seq![plain_seg(trim_spec(normalize_ws_spec(text.take(min(2 * context, text.len() as int)))))]
}

/// The codepoint bounds of a snippet window: the clamped match span
/// `[start_c, end_c)` inside the window `[start_snip, end_snip)`.
pub ghost struct WindowBounds {
    pub start_c: int,
    pub end_c: int,
    pub start_snip: int,
    pub end_snip: int,
}

/// Computes the window around a match of length `mlen` starting at `start`
/// in a text of `n` codepoints (both clamped to `n`).  Each side receives
/// up to `context` codepoints; a side's shortfall is redistributed to the
/// other, capped by that side's own availability.
pub open spec fn window_bounds_spec(n: int, start: int, mlen: int, context: int) -> WindowBounds {
    let start_c = min(start, n);
    let end_c = min(start + mlen, n);
    let avail_left = start_c;
    let avail_right = n - end_c;
    let left0 = min(context, avail_left);
    let right0 = min(context, avail_right);
    let right1 = if left0 < context {
        min(right0 + (context - left0), avail_right)
    } else {
        right0
    };
    let left1 = if right1 < context {
        min(left0 + (context - right1), avail_left)
    } else {
        left0
    };
    WindowBounds {
        start_c,
        end_c,
        start_snip: start_c - left1,
        end_snip: end_c + right1,
    }
}

/// The snippet around a match: leading ellipsis when the window misses the
/// text's start, left context, the highlighted match (trimmed), right
/// context, trailing ellipsis when the window misses the text's end.
pub open spec fn window_snippet_spec(
    text: Seq<char>,
    start: int,
    mlen: int,
    context: int,
) -> Seq<SegView> {
    let n = text.len() as int;
    let b = window_bounds_spec(n, start, mlen, context);
    let lead = if b.start_snip > 0 {
        seq![ellipsis_seg()]
    } else {
        Seq::empty()
    };
    let left_seg = if b.start_snip < b.start_c {
        seq![plain_seg(normalize_ws_spec(text.subrange(b.start_snip, b.start_c)))]
    } else {
        Seq::empty()
    };
    let match_seg = seq![
        SegView {
            text: trim_spec(normalize_ws_spec(text.subrange(b.start_c, b.end_c))),
            highlighted: true,
        },
    ];
    let right_seg = if b.end_c < b.end_snip {
        seq![plain_seg(normalize_ws_spec(text.subrange(b.end_c, b.end_snip)))]
    } else {
        Seq::empty()
    };
    let trail = if b.end_snip < n {
        seq![ellipsis_seg()]
    } else {
        Seq::empty()
    };
    lead + left_seg + match_seg + right_seg + trail
}

/// The full snippet contract: empty text gives one empty segment; an empty
/// query, or a query without a case-insensitive occurrence, gives the
/// leading excerpt; a found occurrence gives the highlighted window.
pub open spec fn snippet_spec(text: Seq<char>, query_lower: Seq<char>, context: int) -> Seq<
    SegView,
> {
    if text.len() == 0 {
        seq![plain_seg(Seq::empty())]
    } else if query_lower.len() == 0 {
        leading_snippet_spec(text, context)
    } else {
        match find_spec(lower_of(text), query_lower) {
            None => leading_snippet_spec(text, context),
            Some(start) => window_snippet_spec(text, start, query_lower.len() as int, context),
        }
    }
}

/// Renders the snippet of `text` for the already-lowercased query.
#[verifier::rlimit(100)]
pub fn snippet_from_text(text: &str, query_lower: &str, context: usize) -> (r: Snippet)
    ensures
        r@ == snippet_spec(text@, query_lower@, context as int),
{
    let text_chars = chars_vec(text);
    if text_chars.len() == 0 {
        let seg = SnippetSegment { text: String::new(), highlighted: false };
        let r = Snippet { segments: vec![seg] };
        proof {
            assert(r@ =~= seq![plain_seg(Seq::<char>::empty())]);
        }
        return r;
    }
    if query_lower.is_empty() {
        return leading_snippet(text, &text_chars, context);
    }
    let lower = to_lowercase(text);
    let lower_chars = chars_vec(lower.as_str());
    let needle = chars_vec(query_lower);
    let pos = find_chars(&lower_chars, &needle);
    match pos {
        None => leading_snippet(text, &text_chars, context),
        Some(start) => window_snippet(&text_chars, start, needle.len(), context),
    }
}

/// Computes the window bounds around the clamped match span.
#[verifier::rlimit(60)]
fn window_bounds(n: usize, start: usize, mlen: usize, context: usize) -> (r: (
    usize,
    usize,
    usize,
    usize,
))
    ensures
        ({
            let b = window_bounds_spec(n as int, start as int, mlen as int, context as int);
            r.0 == b.start_c && r.1 == b.end_c && r.2 == b.start_snip && r.3 == b.end_snip
        }),
{
    let ghost gstart_c = min(start as int, n as int);
    let ghost gend_c = min(start as int + mlen as int, n as int);
    let ghost gleft0 = min(context as int, gstart_c);
    let ghost gright0 = min(context as int, n as int - gend_c);
    let ghost gright1 = if gleft0 < context as int {
        min(gright0 + (context as int - gleft0), n as int - gend_c)
    } else {
        gright0
    };
    let ghost gleft1 = if gright1 < context as int {
        min(gleft0 + (context as int - gright1), gstart_c)
    } else {
        gleft0
    };
    let start_c = if start < n {
        start
    } else {
        n
    };
    assert(start_c as int == gstart_c);
    let end_c = match start.checked_add(mlen) {
        Some(e) => if e < n {
            e
        } else {
            n
        },
        None => n,
    };
    assert(end_c as int == gend_c);
    let avail_left = start_c;
    let avail_right = n - end_c;
    let mut left_take = if context < avail_left {
        context
    } else {
        avail_left
    };
    assert(left_take as int == gleft0);
    let mut right_take = if context < avail_right {
        context
    } else {
        avail_right
    };
    assert(right_take as int == gright0);
    if left_take < context {
        let extra = context - left_take;
        right_take = match right_take.checked_add(extra) {
            Some(v) => if v < avail_right {
                v
            } else {
                avail_right
            },
            None => avail_right,
        };
    }
    assert(right_take as int == gright1);
    if right_take < context {
        let extra = context - right_take;
        left_take = match left_take.checked_add(extra) {
            Some(v) => if v < avail_left {
                v
            } else {
                avail_left
            },
            None => avail_left,
        };
    }
    assert(left_take as int == gleft1);
    let r = (start_c, end_c, start_c - left_take, end_c + right_take);
    proof {
        let b = window_bounds_spec(n as int, start as int, mlen as int, context as int);
        assert(b.start_c == gstart_c && b.end_c == gend_c && b.start_snip == gstart_c - gleft1
            && b.end_snip == gend_c + gright1);
    }
    r
}

/// Builds the highlighted-window snippet for a match found at codepoint
/// `start` (in the case-folded text) of length `mlen`.
#[verifier::rlimit(60)]
fn window_snippet(text_chars: &Vec<char>, start: usize, mlen: usize, context: usize) -> (r:
    Snippet)
    ensures
        r@ == window_snippet_spec(text_chars@, start as int, mlen as int, context as int),
{
    let n = text_chars.len();
    let (start_c, end_c, start_snip, end_snip) = window_bounds(n, start, mlen, context);
    let ghost b = window_bounds_spec(n as int, start as int, mlen as int, context as int);
    proof {
        assert(b.start_c <= n && b.end_c <= n && b.start_snip <= b.start_c && b.end_c
            <= b.end_snip <= n);
    }
    let mut segments: Vec<SnippetSegment> = Vec::new();
    if start_snip > 0 {
        segments.push(ellipsis_segment());
    }
    if start_snip < start_c {
        let part = slice_chars(text_chars, start_snip, start_c);
        let norm = normalize_chars(&part);
        segments.push(SnippetSegment { text: string_from_chars(&norm), highlighted: false });
    }
    let matched = slice_chars(text_chars, start_c, end_c);
    let matched_norm = normalize_chars(&matched);
    let matched_trimmed = trim_chars(&matched_norm);
    segments.push(
        SnippetSegment { text: string_from_chars(&matched_trimmed), highlighted: true },
    );
    if end_c < end_snip {
        let part = slice_chars(text_chars, end_c, end_snip);
        let norm = normalize_chars(&part);
        segments.push(SnippetSegment { text: string_from_chars(&norm), highlighted: false });
    }
    if end_snip < n {
        segments.push(ellipsis_segment());
    }
    let r = Snippet { segments };
    proof {
        assert(r@ =~= window_snippet_spec(
            text_chars@,
            start as int,
            mlen as int,
            context as int,
        ));
    }
    r
}

/// Builds the plain leading-excerpt snippet.
fn leading_snippet(text: &str, text_chars: &Vec<char>, context: usize) -> (r: Snippet)
    requires
        text_chars@ == text@,
    ensures
        r@ == leading_snippet_spec(text@, context as int),
{
    let k = match context.checked_mul(2) {
        Some(v) => v,
        None => text_chars.len(),
    };
    let window = take_chars(text_chars, k);
    let norm = normalize_chars(&window);
    let trimmed = trim_chars(&norm);
    let seg = SnippetSegment { text: string_from_chars(&trimmed), highlighted: false };
    let r = Snippet { segments: vec![seg] };
    proof {
        assert(r@ =~= leading_snippet_spec(text@, context as int));
    }
    r
}

/// Builds the truncation-marker segment.
fn ellipsis_segment() -> (r: SnippetSegment)
    ensures
        r@ == ellipsis_seg(),
{
    proof {
        reveal_strlit("…");
        assert("…"@ =~= seq!['…']);
    }
    SnippetSegment { text: "…".to_owned(), highlighted: false }
}

/// Snippet round-trip law, match case: when the query occurs at `start`
/// within the text's bounds and the matched span holds no whitespace, the
/// normalized window equals the concatenation of the left-context segment,
/// the trimmed match segment and the right-context segment — and the
/// snippet holds exactly one highlighted segment, the match.
#[verifier::rlimit(60)]
pub proof fn lemma_snippet_round_trip(text: Seq<char>, ql: Seq<char>, context: int, start: int)
    requires
        text.len() > 0,
        ql.len() > 0,
        context >= 0,
        find_spec(lower_of(text), ql) == Some(start),
        0 <= start,
        start + ql.len() <= text.len(),
        forall|i: int| start <= i < start + ql.len() ==> !is_ws_char(#[trigger] text[i]),
    ensures
        ({
            let n = text.len() as int;
            let b = window_bounds_spec(n, start, ql.len() as int, context);
            normalize_ws_spec(text.subrange(b.start_snip, b.end_snip)) == normalize_ws_spec(
                text.subrange(b.start_snip, b.start_c),
            ) + trim_spec(normalize_ws_spec(text.subrange(b.start_c, b.end_c)))
                + normalize_ws_spec(text.subrange(b.end_c, b.end_snip))
        }),
        ({
            let segs = snippet_spec(text, ql, context);
            exists|h: int|
                0 <= h < segs.len() && (#[trigger] segs[h]).highlighted && (forall|k: int|
                    0 <= k < segs.len() && k != h ==> !(#[trigger] segs[k]).highlighted)
        }),
{
    let n = text.len() as int;
    let mlen = ql.len() as int;
    let b = window_bounds_spec(n, start, mlen, context);
    assert(b.start_c == start && b.end_c == start + mlen);
    assert(0 <= b.start_snip <= b.start_c && b.end_c <= b.end_snip <= n);
    let l = text.subrange(b.start_snip, b.start_c);
    let m = text.subrange(b.start_c, b.end_c);
    let r = text.subrange(b.end_c, b.end_snip);
    let w = text.subrange(b.start_snip, b.end_snip);
    assert(w =~= l + (m + r));
    assert(forall|i: int| 0 <= i < m.len() ==> !is_ws_char(#[trigger] m[i]));
    let e0 = (Seq::<char>::empty(), false);
    crate::text::lemma_norm_from_concat(e0, l, m + r);
    let st1 = crate::text::norm_from(e0, l);
    crate::text::lemma_norm_from_concat(st1, m, r);
    let st2 = crate::text::norm_from(st1, m);
    crate::text::lemma_norm_ws_free(st1, m);
    crate::text::lemma_norm_from_acc(st2.0, false, r);
    crate::text::lemma_norm_ws_free(e0, m);
    crate::text::lemma_trim_ws_free(m);
    assert(Seq::<char>::empty() + m =~= m);
    assert(normalize_ws_spec(w) =~= (st1.0 + m) + normalize_ws_spec(r));
    assert(normalize_ws_spec(l) + trim_spec(normalize_ws_spec(m)) + normalize_ws_spec(r) =~= (
    st1.0 + m) + normalize_ws_spec(r));

    let segs = snippet_spec(text, ql, context);
    assert(segs == window_snippet_spec(text, start, mlen, context));
    let lead_len: int = if b.start_snip > 0 {
        1
    } else {
        0
    };
    let left_len: int = if b.start_snip < b.start_c {
        1
    } else {
        0
    };
    let h = lead_len + left_len;
    assert(segs[h].highlighted);
    assert(forall|k: int| 0 <= k < segs.len() && k != h ==> !(#[trigger] segs[k]).highlighted);
}

/// Snippet highlight law, match case: a found occurrence yields exactly
/// one highlighted segment — the match.
pub proof fn lemma_snippet_match_highlight(text: Seq<char>, ql: Seq<char>, context: int)
    requires
        text.len() > 0,
        ql.len() > 0,
        find_spec(lower_of(text), ql) is Some,
    ensures
        ({
            let segs = snippet_spec(text, ql, context);
            exists|h: int|
                0 <= h < segs.len() && (#[trigger] segs[h]).highlighted && (forall|k: int|
                    0 <= k < segs.len() && k != h ==> !(#[trigger] segs[k]).highlighted)
        }),
{
    let start = find_spec(lower_of(text), ql)->Some_0;
    let mlen = ql.len() as int;
    let n = text.len() as int;
    let b = window_bounds_spec(n, start, mlen, context);
    let segs = snippet_spec(text, ql, context);
    assert(segs == window_snippet_spec(text, start, mlen, context));
    let lead_len: int = if b.start_snip > 0 {
        1
    } else {
        0
    };
    let left_len: int = if b.start_snip < b.start_c {
        1
    } else {
        0
    };
    let h = lead_len + left_len;
    assert(segs[h].highlighted);
    assert(forall|k: int| 0 <= k < segs.len() && k != h ==> !(#[trigger] segs[k]).highlighted);
}

/// Snippet highlight law, in full: for every text and query, exactly one
/// highlighted segment exists when a case-insensitive occurrence was found
/// in a non-empty text, and none exists otherwise.  A single highlighted
/// segment is in particular the sole contiguous highlighted run.
pub proof fn lemma_snippet_highlight_iff(text: Seq<char>, ql: Seq<char>, context: int)
    ensures
        ({
            let segs = snippet_spec(text, ql, context);
            let found = text.len() > 0 && ql.len() > 0 && find_spec(lower_of(text), ql) is Some;
            if found {
                exists|h: int|
                    0 <= h < segs.len() && (#[trigger] segs[h]).highlighted && (forall|k: int|
                        0 <= k < segs.len() && k != h ==> !(#[trigger] segs[k]).highlighted)
            } else {
                forall|k: int| 0 <= k < segs.len() ==> !(#[trigger] segs[k]).highlighted
            }
        }),
{
    if text.len() > 0 && ql.len() > 0 && find_spec(lower_of(text), ql) is Some {
        lemma_snippet_match_highlight(text, ql, context);
    } else {
        lemma_snippet_no_match_plain(text, ql, context);
    }
}

/// Snippet highlight law, no-match case: an empty text, an empty query, or
/// a query with no case-insensitive occurrence yields a snippet with no
/// highlighted segment.
pub proof fn lemma_snippet_no_match_plain(text: Seq<char>, ql: Seq<char>, context: int)
    requires
        text.len() == 0 || ql.len() == 0 || find_spec(lower_of(text), ql) is None,
    ensures
        forall|k: int|
            0 <= k < snippet_spec(text, ql, context).len() ==> !(#[trigger] snippet_spec(
                text,
                ql,
                context,
            )[k]).highlighted,
{
}

/// Collapses whitespace runs in `text` to single spaces.
pub fn normalize_snippet_text(text: &str) -> (r: String)
    ensures
        r@ == normalize_ws_spec(text@),
{
    let cs = chars_vec(text);
    let norm = normalize_chars(&cs);
    string_from_chars(&norm)
}

/// Collapses whitespace runs to single spaces and trims both ends.
pub fn normalize_ws(s: &str) -> (r: String)
    ensures
        r@ == trim_spec(normalize_ws_spec(s@)),
{
    let cs = chars_vec(s);
    let norm = normalize_chars(&cs);
    let trimmed = trim_chars(&norm);
    string_from_chars(&trimmed)
}

} // verus!
