//! Text helpers for the list and interactive front ends: rendering a
//! snippet as one terminal line, splitting preview text over two visual
//! lines, and query-editing operations.

use vstd::prelude::*;

use crate::session::{SegView, Snippet};
use crate::shim::string_from_chars;
use crate::text::{chars_vec, is_ws, is_ws_char, trim_end_spec};

verus! {

/// The terminal rendering of one segment: highlighted text is wrapped in
/// bold escapes.
pub open spec fn cli_seg_spec(seg: SegView) -> Seq<char> {
    if seg.highlighted {
        seq!['\u{1b}', '[', '1', 'm'] + seg.text + seq!['\u{1b}', '[', '0', 'm']
    } else {
        seg.text
    }
}

/// The terminal rendering of a snippet: its segments in order.
pub open spec fn cli_line_spec(segs: Seq<SegView>) -> Seq<char>
    decreases segs.len(),
{
    if segs.len() == 0 {
        Seq::empty()
    } else {
        cli_line_spec(segs.drop_last()) + cli_seg_spec(segs.last())
    }
}

/// Renders a snippet as one terminal line, bolding the highlighted match.
pub fn snippet_to_cli_line(snippet: &Snippet) -> (r: String)
    ensures
        r@ == cli_line_spec(snippet@),
{
    let mut out: Vec<char> = Vec::new();
    let n = snippet.segments.len();
    for i in 0..n
        invariant
            n == snippet.segments.len(),
            out@ == cli_line_spec(snippet@.take(i as int)),
    {
        proof {
            assert(snippet@.take(i + 1).drop_last() =~= snippet@.take(i as int));
            assert(snippet@.take(i + 1).last() == snippet@[i as int]);
        }
        let seg = &snippet.segments[i];
        let ghost pre = out@;
        let text = chars_vec(seg.text.as_str());
        if seg.highlighted {
            out.push('\u{1b}');
            out.push('[');
            out.push('1');
            out.push('m');
            extend(&mut out, &text);
            out.push('\u{1b}');
            out.push('[');
            out.push('0');
            out.push('m');
            proof {
                assert(out@ =~= pre + cli_seg_spec(snippet@[i as int]));
            }
        } else {
            extend(&mut out, &text);
            proof {
                assert(out@ =~= pre + cli_seg_spec(snippet@[i as int]));
            }
        }
    }
    proof {
        assert(snippet@.take(n as int) =~= snippet@);
    }
    string_from_chars(&out)
}

/// Appends all of `w`.
fn extend(v: &mut Vec<char>, w: &Vec<char>)
    ensures
        final(v)@ == old(v)@ + w@,
{
    let n = w.len();
    for i in 0..n
        invariant
            n == w.len(),
            v@ == old(v)@ + w@.take(i as int),
    {
        v.push(w[i]);
        proof {
            assert(old(v)@ + w@.take(i + 1) =~= (old(v)@ + w@.take(i as int)).push(
                w@[i as int],
            ));
        }
    }
    proof {
        assert(old(v)@ + w@.take(n as int) =~= old(v)@ + w@);
    }
}

/// The largest index at most `k` holding a whitespace character.
pub open spec fn last_ws_upto(s: Seq<char>, k: int) -> Option<int>
    decreases k + 1,
{
    if k < 0 || k >= s.len() {
        None
    } else if is_ws_char(s[k]) {
        Some(k)
    } else {
        last_ws_upto(s, k - 1)
    }
}

/// Finds the largest whitespace position at most `k`.
fn last_ws_at_most(s: &Vec<char>, k: usize) -> (r: Option<usize>)
    requires
        k < s@.len(),
    ensures
        match r {
            Some(w) => Some(w as int) == last_ws_upto(s@, k as int) && w <= k,
            None => last_ws_upto(s@, k as int) is None,
        },
{
    let mut j = k;
    loop
        invariant_except_break
            j <= k < s@.len(),
            last_ws_upto(s@, k as int) == last_ws_upto(s@, j as int),
        ensures
            match last_ws_upto(s@, k as int) {
                Some(w) => 0 <= w < s@.len(),
                None => true,
            } && ({
                let res = last_ws_upto(s@, k as int);
                (res matches Some(w) ==> is_ws_char(s@[w])) || res is None
            }),
        decreases j,
    {
        if is_ws(s[j]) {
            proof {
                assert(last_ws_upto(s@, j as int) == Some(j as int));
            }
            return Some(j);
        }
        if j == 0 {
            proof {
                assert(last_ws_upto(s@, 0int) is None);
            }
            return None;
        }
        j -= 1;
    }
}

/// The two-line preview split of `s` at visual width `width`: text that
/// fits stays on one line; otherwise the split prefers the position after
/// the last whitespace seen while scanning the first `width + 1`
/// characters, and falls back to a hard break at `width`.
pub open spec fn split_visual_spec(s: Seq<char>, width: int) -> (Seq<char>, Seq<char>) {
    if s.len() <= width {
        (s, Seq::empty())
    } else {
        match last_ws_upto(s, width) {
            Some(w) => (s.take(w + 1), s.skip(w + 1)),
            None => (s.take(width), s.skip(width)),
        }
    }
}

/// Splits preview text over two visual lines of the given width.
pub fn split_visual_two_lines(s: &str, width: usize) -> (r: (String, String))
    ensures
        (r.0@, r.1@) == split_visual_spec(s@, width as int),
{
    let cs = chars_vec(s);
    if cs.len() <= width {
        return (s.to_owned(), String::new());
    }
    let cut = match last_ws_at_most(&cs, width) {
        Some(w) => w + 1,
        None => width,
    };
    let left = crate::text::slice_chars(&cs, 0, cut);
    let right = crate::text::slice_chars(&cs, cut, cs.len());
    proof {
        assert(left@ =~= s@.take(cut as int));
        assert(right@ =~= s@.skip(cut as int));
    }
    (string_from_chars(&left), string_from_chars(&right))
}

/// The word-boundary split of `s` after `n` characters: a zero budget
/// yields everything on the right; text of at most `n` characters stays
/// whole; otherwise the split prefers the position after the last
/// whitespace seen while scanning the first `n + 1` characters, and falls
/// back to a hard break at `n`.
pub open spec fn split_by_spec(s: Seq<char>, n: int) -> (Seq<char>, Seq<char>) {
    if n == 0 {
        (Seq::empty(), s)
    } else if s.len() <= n {
        (s, Seq::empty())
    } else {
        match last_ws_upto(s, n) {
            Some(w) => (s.take(w + 1), s.skip(w + 1)),
            None => (s.take(n), s.skip(n)),
        }
    }
}

/// Splits `s` after `n` characters, preferring a word boundary.
pub fn split_by_chars(s: &str, n: usize) -> (r: (String, String))
    ensures
        (r.0@, r.1@) == split_by_spec(s@, n as int),
{
    if n == 0 {
        return (String::new(), s.to_owned());
    }
    let cs = chars_vec(s);
    if cs.len() <= n {
        return (s.to_owned(), String::new());
    }
    let cut = match last_ws_at_most(&cs, n) {
        Some(w) => w + 1,
        None => n,
    };
    let left = crate::text::slice_chars(&cs, 0, cut);
    let right = crate::text::slice_chars(&cs, cut, cs.len());
    proof {
        assert(left@ =~= s@.take(cut as int));
        assert(right@ =~= s@.skip(cut as int));
    }
    (string_from_chars(&left), string_from_chars(&right))
}

/// The query after deleting its last word: trailing whitespace goes, then
/// the trailing word and the separator before it.
pub open spec fn truncate_last_word_spec(s: Seq<char>) -> Seq<char> {
    if s.len() == 0 {
        s
    } else {
        let t = trim_end_spec(s);
        match last_ws_upto(t, t.len() - 1) {
            Some(w) => trim_end_spec(t.take(w)),
            None => Seq::empty(),
        }
    }
}

/// Deletes the last word of the query buffer.
pub fn truncate_last_word(buffer: &mut String)
    ensures
        final(buffer)@ == truncate_last_word_spec(old(buffer)@),
{
    if buffer.as_str().is_empty() {
        return;
    }
    let cs = chars_vec(buffer.as_str());
    let t = trim_end_chars(&cs);
    if t.len() == 0 {
        proof {
            assert(last_ws_upto(t@, t@.len() - 1) is None);
        }
        *buffer = String::new();
        return;
    }
    match last_ws_at_most(&t, t.len() - 1) {
        Some(w) => {
            let kept = crate::text::slice_chars(&t, 0, w);
            proof {
                assert(kept@ =~= t@.take(w as int));
            }
            let trimmed = trim_end_chars(&kept);
            *buffer = string_from_chars(&trimmed);
        },
        None => {
            *buffer = String::new();
        },
    }
}

/// Removes trailing whitespace characters.
pub fn trim_end_chars(s: &Vec<char>) -> (r: Vec<char>)
    ensures
        r@ == trim_end_spec(s@),
{
    let n = s.len();
    let mut end: usize = n;
    while end > 0 && is_ws(s[end - 1])
        invariant
            end <= n == s.len(),
            forall|j: int| end <= j < n ==> is_ws_char(s@[j]),
        decreases end,
    {
        end -= 1;
    }
    proof {
        crate::text::lemma_trim_end_take(s@, end as int);
        assert(s@.subrange(0, end as int) =~= s@.take(end as int));
    }
    crate::text::slice_chars(s, 0, end)
}

} // verus!
