//! Verified character-level text operations: whitespace classification,
//! whitespace normalization, trimming, substring search and prefix tests.
//!
//! All functions work on `char` sequences so that every index in a contract
//! is a Unicode-codepoint position, never a byte offset.

use vstd::prelude::*;

verus! {

use vstd::math::min;

/// Whether `c` has the Unicode `White_Space` property.
pub open spec fn is_ws_char(c: char) -> bool {
    let u = c as u32;
    ||| u == 0x20
    ||| (0x09 <= u && u <= 0x0d)
    ||| u == 0x85
    ||| u == 0xa0
    ||| u == 0x1680
    ||| (0x2000 <= u && u <= 0x200a)
    ||| u == 0x2028
    ||| u == 0x2029
    ||| u == 0x202f
    ||| u == 0x205f
    ||| u == 0x3000
}

/// Executable check for the Unicode `White_Space` property.
pub fn is_ws(c: char) -> (r: bool)
    ensures
        r == is_ws_char(c),
{
    let u = c as u32;
    u == 0x20 || (0x09 <= u && u <= 0x0d) || u == 0x85 || u == 0xa0 || u == 0x1680 || (0x2000 <= u
        && u <= 0x200a) || u == 0x2028 || u == 0x2029 || u == 0x202f || u == 0x205f || u == 0x3000
}

/// Collects the characters of a string slice into a vector.
pub fn chars_vec(s: &str) -> (r: Vec<char>)
    ensures
        r@ == s@,
{
    broadcast use vstd::string::axiom_spec_iter;

    let mut out: Vec<char> = Vec::new();
    for c in it: s.chars()
        invariant
            out@ == it.seq().take(it.index() as int),
    {
        out.push(c);
    }
    out
}

/// One step of whitespace normalization: the accumulator holds the output
/// so far and whether the last emitted character was the collapsing space.
pub open spec fn norm_step(acc: (Seq<char>, bool), c: char) -> (Seq<char>, bool) {
    if is_ws_char(c) {
        if acc.1 {
            acc
        } else {
            (acc.0.push(' '), true)
        }
    } else {
        (acc.0.push(c), false)
    }
}

/// Runs whitespace normalization over `s`, starting from state `st`.
pub open spec fn norm_from(st: (Seq<char>, bool), s: Seq<char>) -> (Seq<char>, bool)
    decreases s.len(),
{
    if s.len() == 0 {
        st
    } else {
        norm_from(norm_step(st, s[0]), s.drop_first())
    }
}

/// Whitespace normalization: every run of whitespace characters becomes a
/// single space; all other characters are kept in order.
pub open spec fn normalize_ws_spec(s: Seq<char>) -> Seq<char> {
    norm_from((Seq::empty(), false), s).0
}

/// Normalization distributes over concatenation of the input.
pub proof fn lemma_norm_from_concat(st: (Seq<char>, bool), a: Seq<char>, b: Seq<char>)
    ensures
        norm_from(st, a + b) == norm_from(norm_from(st, a), b),
    decreases a.len(),
{
    if a.len() == 0 {
        assert(a + b =~= b);
    } else {
        assert((a + b).drop_first() =~= a.drop_first() + b);
        lemma_norm_from_concat(norm_step(st, a[0]), a.drop_first(), b);
    }
}

/// Appending one character to the input runs one more normalization step.
pub proof fn lemma_norm_from_push(st: (Seq<char>, bool), s: Seq<char>, c: char)
    ensures
        norm_from(st, s.push(c)) == norm_step(norm_from(st, s), c),
{
    assert(s.push(c) =~= s + seq![c]);
    lemma_norm_from_concat(st, s, seq![c]);
    let st2 = norm_from(st, s);
    assert(seq![c].len() == 1);
    assert(seq![c][0] == c);
    let e = seq![c].drop_first();
    assert(e =~= Seq::<char>::empty());
    assert(norm_from(st2, seq![c]) == norm_from(norm_step(st2, c), e));
    assert(norm_from(norm_step(st2, c), e) == norm_step(st2, c));
}

/// Collapses whitespace runs in `s` to single spaces.
pub fn normalize_chars(s: &Vec<char>) -> (r: Vec<char>)
    ensures
        r@ == normalize_ws_spec(s@),
{
    let mut out: Vec<char> = Vec::new();
    let mut last_space = false;
    let n = s.len();
    for i in 0..n
        invariant
            n == s.len(),
            (out@, last_space) == norm_from((Seq::empty(), false), s@.take(i as int)),
    {
        proof {
            lemma_norm_from_push((Seq::empty(), false), s@.take(i as int), s@[i as int]);
            assert(s@.take(i as int).push(s@[i as int]) =~= s@.take(i + 1));
        }
        let c = s[i];
        if is_ws(c) {
            if !last_space {
                out.push(' ');
                last_space = true;
            }
        } else {
            out.push(c);
            last_space = false;
        }
    }
    proof {
        assert(s@.take(n as int) =~= s@);
    }
    out
}

/// Normalization from any accumulator only appends: the suffix written and
/// the final flag depend on the input and the starting flag alone.
pub proof fn lemma_norm_from_acc(acc: Seq<char>, b: bool, s: Seq<char>)
    ensures
        norm_from((acc, b), s).0 == acc + norm_from((Seq::empty(), b), s).0,
        norm_from((acc, b), s).1 == norm_from((Seq::empty(), b), s).1,
    decreases s.len(),
{
    if s.len() == 0 {
        assert(acc + Seq::empty() =~= acc);
    } else {
        let c = s[0];
        let rest = s.drop_first();
        if is_ws_char(c) {
            if b {
                lemma_norm_from_acc(acc, true, rest);
            } else {
                lemma_norm_from_acc(acc.push(' '), true, rest);
                lemma_norm_from_acc(seq![' '], true, rest);
                assert(acc.push(' ') + norm_from((Seq::empty(), true), rest).0 =~= acc + (
                seq![' '] + norm_from((Seq::empty(), true), rest).0));
                assert(Seq::<char>::empty().push(' ') =~= seq![' ']);
            }
        } else {
            lemma_norm_from_acc(acc.push(c), false, rest);
            lemma_norm_from_acc(seq![c], false, rest);
            assert(acc.push(c) + norm_from((Seq::empty(), false), rest).0 =~= acc + (seq![c]
                + norm_from((Seq::empty(), false), rest).0));
            assert(Seq::<char>::empty().push(c) =~= seq![c]);
        }
    }
}

/// Normalizing whitespace-free text appends it verbatim; a non-empty such
/// text leaves the collapsing flag clear.
pub proof fn lemma_norm_ws_free(st: (Seq<char>, bool), s: Seq<char>)
    requires
        forall|i: int| 0 <= i < s.len() ==> !is_ws_char(#[trigger] s[i]),
    ensures
        norm_from(st, s).0 == st.0 + s,
        s.len() > 0 ==> norm_from(st, s).1 == false,
        s.len() == 0 ==> norm_from(st, s).1 == st.1,
    decreases s.len(),
{
    if s.len() == 0 {
        assert(st.0 + s =~= st.0);
    } else {
        let c = s[0];
        let rest = s.drop_first();
        lemma_norm_ws_free((st.0.push(c), false), rest);
        assert(st.0.push(c) + rest =~= st.0 + s);
    }
}

/// Trimming whitespace-free text is the identity.
pub proof fn lemma_trim_ws_free(s: Seq<char>)
    requires
        forall|i: int| 0 <= i < s.len() ==> !is_ws_char(#[trigger] s[i]),
    ensures
        trim_spec(s) == s,
{
    assert(trim_start_spec(s) == s);
    assert(trim_end_spec(s) == s);
}

/// `s` without leading whitespace.
pub open spec fn trim_start_spec(s: Seq<char>) -> Seq<char>
    decreases s.len(),
{
    if s.len() > 0 && is_ws_char(s[0]) {
        trim_start_spec(s.drop_first())
    } else {
        s
    }
}

/// `s` without trailing whitespace.
pub open spec fn trim_end_spec(s: Seq<char>) -> Seq<char>
    decreases s.len(),
{
    if s.len() > 0 && is_ws_char(s.last()) {
        trim_end_spec(s.drop_last())
    } else {
        s
    }
}

/// `s` without leading and trailing whitespace.
pub open spec fn trim_spec(s: Seq<char>) -> Seq<char> {
    trim_end_spec(trim_start_spec(s))
}

pub proof fn lemma_trim_start_skip(s: Seq<char>, i: int)
    requires
        0 <= i <= s.len(),
        forall|j: int| 0 <= j < i ==> is_ws_char(s[j]),
        i < s.len() ==> !is_ws_char(s[i]),
    ensures
        trim_start_spec(s) == s.skip(i),
    decreases i,
{
    if i == 0 {
        assert(s.skip(0) =~= s);
    } else {
        assert(is_ws_char(s[0]));
        lemma_trim_start_skip(s.drop_first(), i - 1);
        assert(s.drop_first().skip(i - 1) =~= s.skip(i));
    }
}

pub proof fn lemma_trim_end_take(s: Seq<char>, i: int)
    requires
        0 <= i <= s.len(),
        forall|j: int| i <= j < s.len() ==> is_ws_char(s[j]),
        i > 0 ==> !is_ws_char(s[i - 1]),
    ensures
        trim_end_spec(s) == s.take(i),
    decreases s.len() - i,
{
    if i == s.len() {
        assert(s.take(i) =~= s);
    } else {
        assert(is_ws_char(s.last()));
        lemma_trim_end_take(s.drop_last(), i);
        assert(s.drop_last().take(i) =~= s.take(i));
    }
}

/// Removes leading and trailing whitespace characters.
pub fn trim_chars(s: &Vec<char>) -> (r: Vec<char>)
    ensures
        r@ == trim_spec(s@),
{
    let n = s.len();
    let mut start: usize = 0;
    while start < n && is_ws(s[start])
        invariant
            n == s.len(),
            start <= n,
            forall|j: int| 0 <= j < start ==> is_ws_char(s@[j]),
        decreases n - start,
    {
        start += 1;
    }
    proof {
        lemma_trim_start_skip(s@, start as int);
    }
    let mut end: usize = n;
    while end > start && is_ws(s[end - 1])
        invariant
            n == s.len(),
            start <= end <= n,
            forall|j: int| end <= j < n ==> is_ws_char(s@[j]),
            forall|j: int| 0 <= j < start ==> is_ws_char(s@[j]),
            start < n ==> !is_ws_char(s@[start as int]),
        decreases end,
    {
        end -= 1;
    }
    let mut out: Vec<char> = Vec::new();
    let mut i: usize = start;
    while i < end
        invariant
            start <= i <= end <= n,
            n == s.len(),
            out@ == s@.subrange(start as int, i as int),
        decreases end - i,
    {
        out.push(s[i]);
        proof {
            assert(s@.subrange(start as int, i + 1) =~= s@.subrange(start as int, i as int).push(
                s@[i as int],
            ));
        }
        i += 1;
    }
    proof {
        let st = s@.skip(start as int);
        if end == start {
            lemma_trim_end_take(st, 0);
        } else {
            assert(!is_ws_char(st[end - start - 1]));
            assert(forall|j: int|
                end - start <= j < st.len() ==> is_ws_char(#[trigger] st[j]) && is_ws_char(
                    s@[j + start],
                ));
            lemma_trim_end_take(st, end - start);
        }
        assert(st.take(end - start) =~= s@.subrange(start as int, end as int));
    }
    out
}

/// The needle `n` occurs in `h` at codepoint position `i`.
pub open spec fn match_at(h: Seq<char>, n: Seq<char>, i: int) -> bool {
    0 <= i && i + n.len() <= h.len() && h.subrange(i, i + n.len()) == n
}

/// The needle `n` occurs somewhere in `h`.
pub open spec fn contains_seq(h: Seq<char>, n: Seq<char>) -> bool {
    exists|i: int| match_at(h, n, i)
}

/// Position of the first occurrence of `n` in `h` at or after `i`.
pub open spec fn find_from_spec(h: Seq<char>, n: Seq<char>, i: int) -> Option<int>
    decreases h.len() - i,
{
    if i < 0 || i + n.len() > h.len() {
        None
    } else if n.len() == 0 {
        Some(i)
    } else if h.subrange(i, i + n.len()) == n {
        Some(i)
    } else {
        find_from_spec(h, n, i + 1)
    }
}

/// Position of the first occurrence of `n` in `h`, if any.
pub open spec fn find_spec(h: Seq<char>, n: Seq<char>) -> Option<int> {
    find_from_spec(h, n, 0)
}

/// The first occurrence is an occurrence, is first, and exists whenever any
/// occurrence does.
pub proof fn lemma_find_from_spec(h: Seq<char>, n: Seq<char>, i: int)
    requires
        0 <= i <= h.len(),
    ensures
        match find_from_spec(h, n, i) {
            Some(p) => match_at(h, n, p) && i <= p && forall|j: int|
                i <= j < p ==> !match_at(h, n, j),
            None => forall|j: int| j >= i ==> !match_at(h, n, j),
        },
    decreases h.len() - i,
{
    if i + n.len() > h.len() {
        assert(forall|j: int| j >= i ==> !match_at(h, n, j));
    } else if n.len() == 0 {
        assert(h.subrange(i, i + n.len()) =~= n);
    } else if h.subrange(i, i + n.len()) == n {
    } else {
        lemma_find_from_spec(h, n, i + 1);
    }
}

/// Finds the first occurrence of `n` in `h`, as a codepoint index.
pub fn find_chars(h: &Vec<char>, n: &Vec<char>) -> (r: Option<usize>)
    ensures
        match r {
            Some(p) => Some(p as int) == find_spec(h@, n@),
            None => find_spec(h@, n@) is None,
        },
{
    find_chars_from(h, n, 0)
}

/// Finds the first occurrence of `n` in `h` at or after `from`.
pub fn find_chars_from(h: &Vec<char>, n: &Vec<char>, from: usize) -> (r: Option<usize>)
    ensures
        match r {
            Some(p) => Some(p as int) == find_from_spec(h@, n@, from as int) && from <= p,
            None => find_from_spec(h@, n@, from as int) is None,
        },
{
    let hn = h.len();
    let nn = n.len();
    if nn > hn || from > hn - nn {
        return None;
    }
    let mut i: usize = from;
    while i <= hn - nn
        invariant
            hn == h.len(),
            nn == n.len(),
            nn <= hn,
            from <= i <= hn - nn + 1,
            find_from_spec(h@, n@, from as int) == find_from_spec(h@, n@, i as int),
        decreases hn - i,
    {
        let mut k: usize = 0;
        let mut ok = true;
        while k < nn
            invariant
                hn == h.len(),
                nn == n.len(),
                i + nn <= hn,
                k <= nn,
                ok == (h@.subrange(i as int, i + k) =~= n@.subrange(0, k as int)),
            decreases nn - k,
        {
            proof {
                assert(h@.subrange(i as int, i + k + 1) =~= h@.subrange(i as int, i + k).push(
                    h@[i + k],
                ));
                assert(n@.subrange(0, k + 1) =~= n@.subrange(0, k as int).push(n@[k as int]));
            }
            if h[i + k] != n[k] {
                ok = false;
                proof {
                    let hk = h@.subrange(i as int, i + k + 1);
                    let nk = n@.subrange(0, k + 1);
                    assert(hk[k as int] != nk[k as int]);
                }
            }
            k += 1;
        }
        proof {
            assert(n@.subrange(0, nn as int) =~= n@);
        }
        if ok {
            return Some(i);
        }
        i += 1;
    }
    proof {
        assert(find_from_spec(h@, n@, i as int) is None);
    }
    None
}

/// Whether `h` contains `n`, at codepoint granularity.
pub fn contains_chars(h: &Vec<char>, n: &Vec<char>) -> (r: bool)
    ensures
        r == contains_seq(h@, n@),
{
    let f = find_chars(h, n);
    proof {
        lemma_find_from_spec(h@, n@, 0);
    }
    match f {
        Some(_) => true,
        None => false,
    }
}

/// Whether `p` is a prefix of `s`.
pub open spec fn is_prefix_spec(p: Seq<char>, s: Seq<char>) -> bool {
    p.len() <= s.len() && s.take(p.len() as int) == p
}

/// Prefix test over character vectors.
pub fn is_prefix_chars(p: &Vec<char>, s: &Vec<char>) -> (r: bool)
    ensures
        r == is_prefix_spec(p@, s@),
{
    let pn = p.len();
    if pn > s.len() {
        return false;
    }
    let mut k: usize = 0;
    let mut ok = true;
    while k < pn
        invariant
            pn == p.len(),
            pn <= s.len(),
            k <= pn,
            ok == (s@.take(k as int) =~= p@.take(k as int)),
        decreases pn - k,
    {
        proof {
            assert(s@.take(k + 1) =~= s@.take(k as int).push(s@[k as int]));
            assert(p@.take(k + 1) =~= p@.take(k as int).push(p@[k as int]));
        }
        if s[k] != p[k] {
            ok = false;
            proof {
                assert(s@.take(k + 1)[k as int] != p@.take(k + 1)[k as int]);
            }
        }
        k += 1;
    }
    proof {
        assert(p@.take(pn as int) =~= p@);
    }
    ok
}

/// The first `k` characters of `s`, or all of `s` if it is shorter.
pub fn take_chars(s: &Vec<char>, k: usize) -> (r: Vec<char>)
    ensures
        r@ == s@.take(min(k as int, s@.len() as int)),
{
    let n = s.len();
    let m = if k < n {
        k
    } else {
        n
    };
    let mut out: Vec<char> = Vec::new();
    let mut i: usize = 0;
    while i < m
        invariant
            m <= n == s.len(),
            i <= m,
            out@ == s@.take(i as int),
        decreases m - i,
    {
        out.push(s[i]);
        proof {
            assert(s@.take(i + 1) =~= s@.take(i as int).push(s@[i as int]));
        }
        i += 1;
    }
    out
}

/// A copy of the characters `s[start..end]`.
pub fn slice_chars(s: &Vec<char>, start: usize, end: usize) -> (r: Vec<char>)
    requires
        start <= end <= s@.len(),
    ensures
        r@ == s@.subrange(start as int, end as int),
{
    let mut out: Vec<char> = Vec::new();
    let mut i: usize = start;
    while i < end
        invariant
            start <= i <= end <= s.len(),
            out@ == s@.subrange(start as int, i as int),
        decreases end - i,
    {
        out.push(s[i]);
        proof {
            assert(s@.subrange(start as int, i + 1) =~= s@.subrange(start as int, i as int).push(
                s@[i as int],
            ));
        }
        i += 1;
    }
    out
}

} // verus!
