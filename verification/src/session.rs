//! The immutable data model: messages, sessions, snippets and search
//! results, together with their construction helpers (search blob, preview
//! clipping, meta-message detection).
//!
//! Timestamps are Unix seconds held in `i64`; textual fields are `String`s
//! whose contracts speak of their codepoint sequences.

use vstd::prelude::*;

use crate::text::{
    chars_vec, find_from_spec, find_spec, is_prefix_chars, is_prefix_spec, is_ws, trim_chars,
    trim_start_spec, trim_spec,
};
use crate::shim::{lower_of, string_from_chars};

verus! {

use vstd::utf8::encode_utf8;
use vstd::string::StringExecFns;
use vstd::math::min;

/// Who produced a message.
#[derive(Clone, Copy, PartialEq, Eq, Structural, Debug)]
pub enum MessageRole {
    User,
    Assistant,
}

/// One message of a conversation transcript.
#[derive(Debug)]
pub struct Message {
    pub role: MessageRole,
    /// Pre-truncated display text.
    pub text: String,
    /// Unix seconds, when the record carried one.
    pub timestamp: Option<i64>,
    /// Authoritative, length-capped content.
    pub full_text: String,
}

/// Ghost model of a message.
pub ghost struct MessageView {
    pub role: MessageRole,
    pub text: Seq<char>,
    pub timestamp: Option<i64>,
    pub full_text: Seq<char>,
}

impl View for Message {
    type V = MessageView;

    open spec fn view(&self) -> MessageView {
        MessageView {
            role: self.role,
            text: self.text@,
            timestamp: self.timestamp,
            full_text: self.full_text@,
        }
    }
}

impl Clone for Message {
    /// Cloning preserves the message model.
    fn clone(&self) -> (r: Self)
        ensures
            r@ == self@,
    {
        Message {
            role: self.role,
            text: self.text.clone(),
            timestamp: self.timestamp,
            full_text: self.full_text.clone(),
        }
    }
}

/// One discovered conversation session.
#[derive(Debug)]
pub struct Session {
    /// Stable identity, unique within a run.
    pub uuid: String,
    /// Display title.
    pub label: String,
    /// Opaque handle to the session's origin.
    pub path: String,
    pub created_at: Option<i64>,
    /// Filesystem-derived modification time, Unix seconds.
    pub updated_at: i64,
    /// Maximum message timestamp, when any message carries one.
    pub latest_message_time: Option<i64>,
    /// Originating working directory, when one was recorded.
    pub cwd: Option<String>,
    /// Ordered, chronological messages.
    pub messages: Vec<Message>,
    /// Concatenation of non-meta message texts, capped, plus label and uuid.
    pub search_blob: String,
}

/// Ghost model of a session.
pub ghost struct SessionView {
    pub uuid: Seq<char>,
    pub label: Seq<char>,
    pub path: Seq<char>,
    pub created_at: Option<i64>,
    pub updated_at: i64,
    pub latest_message_time: Option<i64>,
    pub cwd: Option<Seq<char>>,
    pub messages: Seq<MessageView>,
    pub search_blob: Seq<char>,
}

impl View for Session {
    type V = SessionView;

    open spec fn view(&self) -> SessionView {
        SessionView {
            uuid: self.uuid@,
            label: self.label@,
            path: self.path@,
            created_at: self.created_at,
            updated_at: self.updated_at,
            latest_message_time: self.latest_message_time,
            cwd: match self.cwd {
                Some(ref c) => Some(c@),
                None => None,
            },
            messages: Seq::new(self.messages@.len(), |i: int| self.messages@[i]@),
            search_blob: self.search_blob@,
        }
    }
}

impl Clone for Session {
    /// Cloning preserves the session model.
    fn clone(&self) -> (r: Self)
        ensures
            r@ == self@,
    {
        let mut messages: Vec<Message> = Vec::new();
        let n = self.messages.len();
        for i in 0..n
            invariant
                n == self.messages.len(),
                messages@.len() == i,
                forall|j: int| 0 <= j < i ==> messages@[j]@ == self.messages@[j]@,
        {
            messages.push(self.messages[i].clone());
        }
        let r = Session {
            uuid: self.uuid.clone(),
            label: self.label.clone(),
            path: self.path.clone(),
            created_at: self.created_at,
            updated_at: self.updated_at,
            latest_message_time: self.latest_message_time,
            cwd: match &self.cwd {
                Some(c) => Some(c.clone()),
                None => None,
            },
            messages,
            search_blob: self.search_blob.clone(),
        };
        proof {
            assert(r@.messages =~= self@.messages);
        }
        r
    }
}

impl Session {
    /// The session's first message, used as its display preview.
    pub fn preview(&self) -> (r: Option<&Message>)
        ensures
            match r {
                Some(m) => self@.messages.len() > 0 && m@ == self@.messages[0],
                None => self@.messages.len() == 0,
            },
    {
        if self.messages.len() > 0 {
            Some(&self.messages[0])
        } else {
            None
        }
    }

    /// The session's display title.
    pub fn title(&self) -> (r: &str)
        ensures
            r@ == self@.label,
    {
        self.label.as_str()
    }
}

/// One run of snippet text, highlighted when it is the query match.
#[derive(Debug)]
pub struct SnippetSegment {
    pub text: String,
    pub highlighted: bool,
}

/// Ghost model of a snippet segment.
pub ghost struct SegView {
    pub text: Seq<char>,
    pub highlighted: bool,
}

impl View for SnippetSegment {
    type V = SegView;

    open spec fn view(&self) -> SegView {
        SegView { text: self.text@, highlighted: self.highlighted }
    }
}

impl Clone for SnippetSegment {
    /// Cloning preserves the segment model.
    fn clone(&self) -> (r: Self)
        ensures
            r@ == self@,
    {
        SnippetSegment { text: self.text.clone(), highlighted: self.highlighted }
    }
}

/// An ordered run of segments whose concatenation reconstructs a
/// whitespace-normalized window of the source text.
#[derive(Debug)]
pub struct Snippet {
    pub segments: Vec<SnippetSegment>,
}

impl View for Snippet {
    type V = Seq<SegView>;

    open spec fn view(&self) -> Seq<SegView> {
        Seq::new(self.segments@.len(), |i: int| self.segments@[i]@)
    }
}

impl Clone for Snippet {
    /// Cloning preserves the snippet model.
    fn clone(&self) -> (r: Self)
        ensures
            r@ == self@,
    {
        let mut segments: Vec<SnippetSegment> = Vec::new();
        let n = self.segments.len();
        for i in 0..n
            invariant
                n == self.segments.len(),
                segments@.len() == i,
                forall|j: int| 0 <= j < i ==> segments@[j]@ == self.segments@[j]@,
        {
            segments.push(self.segments[i].clone());
        }
        let r = Snippet { segments };
        proof {
            assert(r@ =~= self@);
        }
        r
    }
}

/// One ranked hit: the session, the best-matching message, the score and a
/// rendered snippet.
#[derive(Debug)]
pub struct SearchResult {
    pub session: Session,
    pub matched_message: Option<Message>,
    pub score: i64,
    pub snippet: Snippet,
}

/// Ghost model of a search result.
pub ghost struct ResultView {
    pub session: SessionView,
    pub matched_message: Option<MessageView>,
    pub score: i64,
    pub snippet: Seq<SegView>,
}

impl View for SearchResult {
    type V = ResultView;

    open spec fn view(&self) -> ResultView {
        ResultView {
            session: self.session@,
            matched_message: match self.matched_message {
                Some(ref m) => Some(m@),
                None => None,
            },
            score: self.score,
            snippet: self.snippet@,
        }
    }
}

impl Clone for SearchResult {
    /// Cloning preserves the result model.
    fn clone(&self) -> (r: Self)
        ensures
            r@ == self@,
    {
        SearchResult {
            session: self.session.clone(),
            matched_message: match &self.matched_message {
                Some(m) => Some(m.clone()),
                None => None,
            },
            score: self.score,
            snippet: self.snippet.clone(),
        }
    }
}

/// The timestamp a result is ordered by: matched message's, else the
/// session's latest message time, else its update time.
pub open spec fn match_ts_spec(r: ResultView) -> i64 {
    match r.matched_message {
        Some(m) => match m.timestamp {
            Some(t) => t,
            None => anchor_of_session(r.session),
        },
        None => anchor_of_session(r.session),
    }
}

/// A session's own anchor: latest message time, else update time.
pub open spec fn anchor_of_session(s: SessionView) -> i64 {
    match s.latest_message_time {
        Some(t) => t,
        None => s.updated_at,
    }
}

impl SearchResult {
    /// Resolves the anchor timestamp this result is ordered by.
    pub fn match_timestamp(&self) -> (r: i64)
        ensures
            r == match_ts_spec(self@),
    {
        match &self.matched_message {
            Some(m) => match m.timestamp {
                Some(t) => t,
                None => match self.session.latest_message_time {
                    Some(t) => t,
                    None => self.session.updated_at,
                },
            },
            None => match self.session.latest_message_time {
                Some(t) => t,
                None => self.session.updated_at,
            },
        }
    }
}

/// Number of bytes the UTF-8 encoding of `s` takes.
pub open spec fn byte_len(s: Seq<char>) -> int {
    encode_utf8(s).len() as int
}

/// Search-blob accumulation over the messages: each full text is appended
/// (newline-separated) while the byte cap allows it.
pub open spec fn blob_msgs_spec(msgs: Seq<MessageView>, acc: Seq<char>) -> Seq<char>
    decreases msgs.len(),
{
    if msgs.len() == 0 {
        acc
    } else {
        let t = msgs[0].full_text;
        let acc2 = if byte_len(acc) + byte_len(t) + 1 < crate::SEARCH_BLOB_LIMIT as int {
            if acc.len() == 0 {
                t
            } else {
                acc + seq!['\n'] + t
            }
        } else {
            acc
        };
        blob_msgs_spec(msgs.drop_first(), acc2)
    }
}

/// The search blob: capped message texts, then the label, then the uuid,
/// newline-separated.
pub open spec fn blob_spec(msgs: Seq<MessageView>, label: Seq<char>, uuid: Seq<char>) -> Seq<
    char,
> {
    let b = blob_msgs_spec(msgs, Seq::empty());
    let b2 = if b.len() == 0 {
        b
    } else {
        b + seq!['\n']
    };
    b2 + label + seq!['\n'] + uuid
}

/// Builds the search blob for a session from its (already meta-filtered)
/// messages, label and uuid.
pub fn build_search_blob(messages: &Vec<Message>, label: &str, uuid: &str) -> (r: String)
    ensures
        r@ == blob_spec(
            Seq::new(messages@.len(), |i: int| messages@[i]@),
            label@,
            uuid@,
        ),
{
    proof {
        reveal_strlit("\n");
        assert("\n"@ =~= seq!['\n']);
        assert(Seq::new(messages@.len(), |i: int| messages@[i]@).skip(0) =~= Seq::new(
            messages@.len(),
            |i: int| messages@[i]@,
        ));
    }
    let ghost msgs: Seq<MessageView> = Seq::new(messages@.len(), |i: int| messages@[i]@);
    let mut blob = String::new();
    let n = messages.len();
    for i in 0..n
        invariant
            n == messages.len(),
            msgs == Seq::new(messages@.len(), |j: int| messages@[j]@),
            blob_msgs_spec(msgs.skip(i as int), blob@) == blob_msgs_spec(msgs, Seq::empty()),
    {
        proof {
            broadcast use vstd::slice::group_slice_axioms;

            reveal_strlit("\n");
            assert("\n"@ =~= seq!['\n']);
            assert(msgs.skip(i as int)[0] == msgs[i as int]);
            assert(msgs.skip(i as int).drop_first() =~= msgs.skip(i + 1));
            assert(msgs[i as int] == messages@[i as int]@);
        }
        let text = messages[i].full_text.as_str();
        let blob_bytes = blob.as_str().as_bytes().len();
        let text_bytes = text.as_bytes().len();
        let fits = match blob_bytes.checked_add(text_bytes) {
            Some(v) => match v.checked_add(1) {
                Some(w) => w < crate::SEARCH_BLOB_LIMIT,
                None => false,
            },
            None => false,
        };
        if fits {
            let ghost pre = blob@;
            if !blob.as_str().is_empty() {
                blob.append("\n");
                blob.append(text);
                proof {
                    assert(blob@ =~= pre + seq!['\n'] + text@);
                }
            } else {
                blob.append(text);
                proof {
                    assert(pre =~= Seq::<char>::empty());
                    assert(blob@ =~= text@);
                }
            }
        }
    }
    proof {
        assert(msgs.skip(n as int) =~= Seq::<MessageView>::empty());
    }
    let ghost b = blob@;
    if !blob.as_str().is_empty() {
        blob.append("\n");
        proof {
            assert(blob@ =~= b + seq!['\n']);
        }
    } else {
        proof {
            assert(b =~= Seq::<char>::empty());
        }
    }
    let ghost b2 = blob@;
    blob.append(label);
    blob.append("\n");
    blob.append(uuid);
    proof {
        assert(blob@ =~= b2 + label@ + seq!['\n'] + uuid@);
    }
    blob
}

/// The latest timestamp any of the messages carries.
pub open spec fn latest_ts_spec(msgs: Seq<MessageView>) -> Option<i64>
    decreases msgs.len(),
{
    if msgs.len() == 0 {
        None
    } else {
        let rest = latest_ts_spec(msgs.drop_last());
        match msgs.last().timestamp {
            None => rest,
            Some(t) => match rest {
                None => Some(t),
                Some(r) => Some(
                    if t >= r {
                        t
                    } else {
                        r
                    },
                ),
            },
        }
    }
}

/// Computes the latest message timestamp of a session's messages.
pub fn latest_message_time(messages: &Vec<Message>) -> (r: Option<i64>)
    ensures
        r == latest_ts_spec(Seq::new(messages@.len(), |i: int| messages@[i]@)),
{
    let ghost msgs: Seq<MessageView> = Seq::new(messages@.len(), |i: int| messages@[i]@);
    let mut best: Option<i64> = None;
    let n = messages.len();
    for i in 0..n
        invariant
            n == messages.len(),
            msgs == Seq::new(messages@.len(), |j: int| messages@[j]@),
            best == latest_ts_spec(msgs.take(i as int)),
    {
        proof {
            assert(msgs.take(i + 1).drop_last() =~= msgs.take(i as int));
            assert(msgs.take(i + 1).last() == msgs[i as int]);
        }
        if let Some(t) = messages[i].timestamp {
            best = match best {
                None => Some(t),
                Some(b) => Some(
                    if t >= b {
                        t
                    } else {
                        b
                    },
                ),
            };
        }
    }
    proof {
        assert(msgs.take(n as int) =~= msgs);
    }
    best
}

/// Whether a text is a meta message: after leading whitespace it starts
/// with one of the recognized system or environment marker tags.
pub open spec fn is_meta_spec(s: Seq<char>) -> bool {
    let t = trim_start_spec(s);
    ||| is_prefix_spec("<user_instructions>"@, t)
    ||| is_prefix_spec("<environment_context>"@, t)
    ||| is_prefix_spec("<system_instructions>"@, t)
    ||| is_prefix_spec("<developer_instructions>"@, t)
    ||| is_prefix_spec("<assistant_memory>"@, t)
    ||| is_prefix_spec("<user_action>"@, t)
}

/// Detects meta messages, which are excluded from the search blob.
pub fn is_meta_text(text: &str) -> (r: bool)
    ensures
        r == is_meta_spec(text@),
{
    let cs = chars_vec(text);
    let t = trim_start_chars(&cs);
    let m1 = chars_vec("<user_instructions>");
    let m2 = chars_vec("<environment_context>");
    let m3 = chars_vec("<system_instructions>");
    let m4 = chars_vec("<developer_instructions>");
    let m5 = chars_vec("<assistant_memory>");
    let m6 = chars_vec("<user_action>");
    is_prefix_chars(&m1, &t) || is_prefix_chars(&m2, &t) || is_prefix_chars(&m3, &t)
        || is_prefix_chars(&m4, &t) || is_prefix_chars(&m5, &t) || is_prefix_chars(&m6, &t)
}

/// Removes leading whitespace characters.
pub fn trim_start_chars(s: &Vec<char>) -> (r: Vec<char>)
    ensures
        r@ == trim_start_spec(s@),
{
    let n = s.len();
    let mut start: usize = 0;
    while start < n && is_ws(s[start])
        invariant
            n == s.len(),
            start <= n,
            forall|j: int| 0 <= j < start ==> crate::text::is_ws_char(s@[j]),
        decreases n - start,
    {
        start += 1;
    }
    proof {
        crate::text::lemma_trim_start_skip(s@, start as int);
    }
    crate::text::slice_chars(s, start, n)
}

/// `text` unchanged when at most `limit` codepoints long, else its first
/// `limit` codepoints with a truncation marker appended.
pub open spec fn clip_spec(s: Seq<char>, limit: int) -> Seq<char> {
    if s.len() <= limit {
        s
    } else {
        s.take(limit).push('…')
    }
}

/// Caps a text at `limit` codepoints, marking truncation.
pub fn clip_chars(text: &str, limit: usize) -> (r: String)
    ensures
        r@ == clip_spec(text@, limit as int),
{
    let cs = chars_vec(text);
    if cs.len() <= limit {
        return text.to_owned();
    }
    let mut kept = crate::text::take_chars(&cs, limit);
    kept.push('…');
    proof {
        assert(kept@ =~= text@.take(limit as int).push('…'));
    }
    string_from_chars(&kept)
}

/// The preview of a full text: trimmed, capped at `limit` codepoints
/// (truncation marked), empty when `limit` is zero.
pub open spec fn preview_spec(s: Seq<char>, limit: int) -> Seq<char> {
    let t = trim_spec(s);
    if limit == 0 {
        Seq::empty()
    } else if t.len() > limit - 1 {
        t.take(limit - 1).push('…')
    } else {
        t
    }
}

/// Builds the pre-truncated display text of a message.
pub fn make_preview(full_text: &str, limit: usize) -> (r: String)
    ensures
        r@ == preview_spec(full_text@, limit as int),
{
    let cs = chars_vec(full_text);
    let t = trim_chars(&cs);
    if limit == 0 {
        return String::new();
    }
    if t.len() > limit - 1 {
        let mut kept = crate::text::take_chars(&t, limit - 1);
        kept.push('…');
        proof {
            assert(kept@ =~= trim_spec(full_text@).take(limit - 1).push('…'));
        }
        string_from_chars(&kept)
    } else {
        string_from_chars(&t)
    }
}

/// Where the working directory stands in a case-folded text: the first
/// environment-context block's first cwd tag, whose content runs to the
/// next closing cwd tag, holds no angle bracket, and ends before the
/// block's close.  Yields the content's codepoint span.
pub open spec fn cwd_span_spec(lt: Seq<char>) -> Option<(int, int)> {
    match find_spec(lt, "<environment_context>"@) {
        None => None,
        Some(e0) => {
            let body = e0 + 21;
            match find_from_spec(lt, "</environment_context>"@, body) {
                None => None,
                Some(e1) => match find_from_spec(lt, "<cwd>"@, body) {
                    None => None,
                    Some(c0) => match find_from_spec(lt, "</cwd>"@, c0 + 5) {
                        None => None,
                        Some(c1) => if c1 + 6 <= e1 && c0 + 5 < c1 && (forall|i: int|
                            c0 + 5 <= i < c1 ==> lt[i] != '<') {
                            Some((c0 + 5, c1))
                        } else {
                            None
                        },
                    },
                },
            }
        },
    }
}

/// The working directory a text announces: the characters of the cwd span,
/// taken from the original text (clamped to its length), trimmed.
pub open spec fn cwd_text_spec(text: Seq<char>) -> Option<Seq<char>> {
    match cwd_span_spec(lower_of(text)) {
        None => None,
        Some(span) => {
            let lo = min(span.0, text.len() as int);
            let hi = min(span.1, text.len() as int);
            if lo <= hi {
                Some(trim_spec(text.subrange(lo, hi)))
            } else {
                Some(Seq::empty())
            }
        },
    }
}

/// Extracts the working directory a message announces in its
/// environment-context block, if any.
pub fn extract_cwd_from_text(text: &str) -> (r: Option<String>)
    ensures
        match r {
            Some(s) => cwd_text_spec(text@) == Some(s@),
            None => cwd_text_spec(text@) is None,
        },
{
    let lower = crate::shim::to_lowercase(text);
    let lt = chars_vec(lower.as_str());
    let ltn = lt.len();
    let env_open = chars_vec("<environment_context>");
    let env_close = chars_vec("</environment_context>");
    let cwd_open = chars_vec("<cwd>");
    let cwd_close = chars_vec("</cwd>");
    proof {
        reveal_strlit("<environment_context>");
        reveal_strlit("</environment_context>");
        reveal_strlit("<cwd>");
        reveal_strlit("</cwd>");
        assert(env_open@.len() == 21);
        assert(env_close@.len() == 22);
        assert(cwd_open@.len() == 5);
        assert(cwd_close@.len() == 6);
    }
    let e0 = match crate::text::find_chars(&lt, &env_open) {
        Some(p) => p,
        None => {
            return None;
        },
    };
    proof {
        crate::text::lemma_find_from_spec(lt@, env_open@, 0);
    }
    let body = e0 + 21;
    let e1 = match crate::text::find_chars_from(&lt, &env_close, body) {
        Some(p) => p,
        None => {
            return None;
        },
    };
    proof {
        crate::text::lemma_find_from_spec(lt@, env_close@, body as int);
    }
    let c0 = match crate::text::find_chars_from(&lt, &cwd_open, body) {
        Some(p) => p,
        None => {
            return None;
        },
    };
    proof {
        crate::text::lemma_find_from_spec(lt@, cwd_open@, body as int);
    }
    let c1 = match crate::text::find_chars_from(&lt, &cwd_close, c0 + 5) {
        Some(p) => p,
        None => {
            return None;
        },
    };
    proof {
        crate::text::lemma_find_from_spec(lt@, cwd_close@, c0 + 5);
    }
    if !(c1 + 6 <= e1 && c0 + 5 < c1) {
        return None;
    }
    let mut has_angle = false;
    let mut i = c0 + 5;
    while i < c1
        invariant
            c0 + 5 <= i <= c1,
            c1 <= ltn == lt@.len(),
            has_angle <==> exists|j: int| c0 + 5 <= j < i && #[trigger] lt@[j] == '<',
        decreases c1 - i,
    {
        if lt[i] == '<' {
            has_angle = true;
        }
        i += 1;
    }
    if has_angle {
        proof {
            let w = choose|j: int| c0 + 5 <= j < c1 && #[trigger] lt@[j] == '<';
            assert(lt@[w] == '<');
        }
        return None;
    }
    let cs = chars_vec(text);
    let n = cs.len();
    let lo = if c0 + 5 < n {
        c0 + 5
    } else {
        n
    };
    let hi = if c1 < n {
        c1
    } else {
        n
    };
    let raw = crate::text::slice_chars(&cs, lo, hi);
    let trimmed = trim_chars(&raw);
    proof {
        assert(raw@ =~= text@.subrange(lo as int, hi as int));
    }
    Some(string_from_chars(&trimmed))
}

} // verus!
