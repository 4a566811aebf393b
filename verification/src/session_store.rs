//! Harness session event log: session ids, sequence numbering, paging of the
//! stored events and the history prefix rebuilt from them.
//!
//! The log itself is a JSON-lines file per session; reading and appending it is
//! done at the edge of the program, which hands the stored events to the
//! functions here.
use vstd::prelude::*;

use crate::adapters::StreamInferenceResponse;
use crate::settings::Settings;
use crate::text::{
    byte_len, chars_of, ends_with, ends_with_vec, is_ascii_alnum, starts_with, string_of, trim, trim_vec,
};

verus! {

pub const SESSIONS_DIR: &'static str = "sessions";
pub const DEFAULT_FETCH_LIMIT: u32 = 50;
pub const MAX_FETCH_LIMIT: u32 = 200;

#[derive(Debug, Clone, PartialEq, Eq)]
pub enum SessionStoreError {
    InvalidSessionId,
    Io(String),
    WorkspaceNotConfigured,
    InvalidTitle,
}

impl SessionStoreError {
    /// Operator-facing message of the error.
    pub fn message(&self) -> (s: String)
        ensures
            s@ == session_error_message(*self),
    {
        match self {
            SessionStoreError::InvalidSessionId => String::from_str("invalid harness session id"),
            SessionStoreError::Io(m) => String::from_str("io error: ").concat(m.as_str()),
            SessionStoreError::WorkspaceNotConfigured => String::from_str(
                "workspace root not configured",
            ),
            SessionStoreError::InvalidTitle => String::from_str("invalid session title"),
        }
    }
}

pub open spec fn session_error_message(e: SessionStoreError) -> Seq<char> {
    match e {
        SessionStoreError::InvalidSessionId => "invalid harness session id"@,
        SessionStoreError::Io(m) => "io error: "@ + m@,
        SessionStoreError::WorkspaceNotConfigured => "workspace root not configured"@,
        SessionStoreError::InvalidTitle => "invalid session title"@,
    }
}

/// Display metadata of a harness session.
#[derive(Debug, Clone, PartialEq, Eq)]
pub struct SessionMeta {
    pub title: String,
    pub title_source: String,
    pub updated_at: String,
    pub completed_turns: u32,
}

/// One stored session event.
#[derive(Debug, Clone, PartialEq, Eq)]
pub struct SessionEvent {
    pub sequence: u64,
    pub event: String,
    pub text: String,
    pub turn_id: String,
    pub tool_name: String,
    pub phase: String,
    pub summary: String,
    pub detail: String,
    pub tool_call_id: String,
    pub elapsed_ms: u64,
    pub done: bool,
}

impl SessionEvent {
    /// A field-by-field copy.
    pub fn duplicate(&self) -> (r: SessionEvent)
        ensures
            r == *self,
    {
        SessionEvent {
            sequence: self.sequence,
            event: self.event.clone(),
            text: self.text.clone(),
            turn_id: self.turn_id.clone(),
            tool_name: self.tool_name.clone(),
            phase: self.phase.clone(),
            summary: self.summary.clone(),
            detail: self.detail.clone(),
            tool_call_id: self.tool_call_id.clone(),
            elapsed_ms: self.elapsed_ms,
            done: self.done,
        }
    }
}

/// The stored record of a stream chunk under `sequence`.
pub fn event_from_chunk(sequence: u64, chunk: &StreamInferenceResponse) -> (e: SessionEvent)
    ensures
        e.sequence == sequence,
        e.event == chunk.event,
        e.text == chunk.text,
        e.turn_id == chunk.turn_id,
        e.tool_name == chunk.tool_name,
        e.phase == chunk.phase,
        e.summary == chunk.summary,
        e.detail == chunk.detail,
        e.tool_call_id == chunk.tool_call_id,
        e.elapsed_ms == chunk.elapsed_ms,
        e.done == chunk.done,
{
    SessionEvent {
        sequence,
        event: chunk.event.clone(),
        text: chunk.text.clone(),
        turn_id: chunk.turn_id.clone(),
        tool_name: chunk.tool_name.clone(),
        phase: chunk.phase.clone(),
        summary: chunk.summary.clone(),
        detail: chunk.detail.clone(),
        tool_call_id: chunk.tool_call_id.clone(),
        elapsed_ms: chunk.elapsed_ms,
        done: chunk.done,
    }
}

/// A page of session events.
#[derive(Debug)]
pub struct FetchPage {
    pub events: Vec<SessionEvent>,
    pub has_more_before: bool,
    pub has_more_after: bool,
    pub head_sequence: u64,
}

pub open spec fn is_session_id_char(c: char) -> bool {
    is_ascii_alnum(c) || c == '-' || c == '_'
}

/// A usable session id: trimmed, 1..=128 bytes, only ASCII letters, digits, `-`, `_`.
pub open spec fn valid_session_id(raw: Seq<char>) -> bool {
    let t = trim(raw);
    &&& t.len() > 0
    &&& byte_len(t) <= 128
    &&& forall|i: int| 0 <= i < t.len() ==> is_session_id_char(#[trigger] t[i])
}

pub fn sanitize_session_id(raw: &str) -> (r: Result<String, SessionStoreError>)
    ensures
        r is Ok <==> valid_session_id(raw@),
        r is Ok ==> r->Ok_0@ == trim(raw@),
        r is Err ==> r->Err_0 == SessionStoreError::InvalidSessionId,
{
    let t = trim_vec(&chars_of(raw));
    if t.len() == 0 {
        return Err(SessionStoreError::InvalidSessionId);
    }
    let bl = crate::text::byte_len_vec(&t);
    if bl > 128 {
        assert(byte_len(t@) > 128);
        return Err(SessionStoreError::InvalidSessionId);
    }
    let mut i: usize = 0;
    while i < t.len()
        invariant
            i <= t.len(),
            t@ == trim(raw@),
            forall|j: int| 0 <= j < i ==> is_session_id_char(#[trigger] t@[j]),
        decreases t.len() - i,
    {
        let c = t[i];
        if !(crate::text::char_is_ascii_alnum(c) || c == '-' || c == '_') {
            assert(!is_session_id_char(t@[i as int]));
            return Err(SessionStoreError::InvalidSessionId);
        }
        i = i + 1;
    }
    Ok(string_of(&t))
}

/// `0` selects the default page size; larger values are capped.
pub open spec fn fetch_limit(limit: u32) -> u32 {
    if limit == 0 {
        DEFAULT_FETCH_LIMIT
    } else if limit < MAX_FETCH_LIMIT {
        limit
    } else {
        MAX_FETCH_LIMIT
    }
}

pub fn normalize_limit(limit: u32) -> (n: u32)
    ensures
        n == fetch_limit(limit),
{
    if limit == 0 {
        DEFAULT_FETCH_LIMIT
    } else if limit < MAX_FETCH_LIMIT {
        limit
    } else {
        MAX_FETCH_LIMIT
    }
}

/// Sequence number the next appended event receives.
pub open spec fn next_sequence_after(all: Seq<SessionEvent>) -> u64 {
    if all.len() == 0 {
        1
    } else {
        (all.last().sequence + 1) as u64
    }
}

pub fn next_sequence(all: &Vec<SessionEvent>) -> (n: u64)
    requires
        all@.len() > 0 ==> all@.last().sequence < u64::MAX,
    ensures
        n == next_sequence_after(all@),
{
    if all.len() == 0 {
        1
    } else {
        all[all.len() - 1].sequence + 1
    }
}

/// Sequence of the newest stored event (0 when none).
pub open spec fn head_sequence_of(all: Seq<SessionEvent>) -> u64 {
    if all.len() == 0 {
        0
    } else {
        all.last().sequence
    }
}

/// Events after `after`, in log order.
pub open spec fn events_after(all: Seq<SessionEvent>, after: u64) -> Seq<SessionEvent>
    decreases all.len(),
{
    if all.len() == 0 {
        Seq::<SessionEvent>::empty()
    } else {
        let init = events_after(all.drop_last(), after);
        if all.last().sequence > after {
            init.push(all.last())
        } else {
            init
        }
    }
}

/// Events before `before`, in log order.
pub open spec fn events_before(all: Seq<SessionEvent>, before: u64) -> Seq<SessionEvent>
    decreases all.len(),
{
    if all.len() == 0 {
        Seq::<SessionEvent>::empty()
    } else {
        let init = events_before(all.drop_last(), before);
        if all.last().sequence < before {
            init.push(all.last())
        } else {
            init
        }
    }
}

/// The last `n` elements (all of them when there are fewer).
pub open spec fn tail_start(len: nat, n: nat) -> nat {
    if len > n {
        (len - n) as nat
    } else {
        0
    }
}

/// The page `fetch_events` returns for the stored events `all`.
pub open spec fn page_spec(all: Seq<SessionEvent>, before: u64, after: u64, limit: u32) -> (
    Seq<SessionEvent>,
    bool,
    bool,
    u64,
) {
    let n = fetch_limit(limit) as nat;
    let head = head_sequence_of(all);
    if after > 0 {
        let newer = events_after(all, after);
        let events = if newer.len() > n {
            newer.take(n as int)
        } else {
            newer
        };
        (events, false, newer.len() > events.len(), head)
    } else if before > 0 {
        let older = events_before(all, before);
        let start = tail_start(older.len(), n);
        (older.skip(start as int), start > 0, false, head)
    } else {
        let start = tail_start(all.len(), n);
        (all.skip(start as int), start > 0, false, head)
    }
}

proof fn lemma_events_after(all: Seq<SessionEvent>, after: u64)
    ensures
        forall|i: int| 0 <= i < events_after(all, after).len() ==> (#[trigger] events_after(all, after)[i]).sequence > after,
    decreases all.len(),
{
    if all.len() > 0 {
        lemma_events_after(all.drop_last(), after);
        let init = events_after(all.drop_last(), after);
        assert forall|i: int| 0 <= i < events_after(all, after).len() implies (#[trigger] events_after(all, after)[i]).sequence > after by {
            if i < init.len() {
                assert(events_after(all, after)[i] == init[i]);
            }
        }
    }
}

proof fn lemma_events_before(all: Seq<SessionEvent>, before: u64)
    ensures
        forall|i: int| 0 <= i < events_before(all, before).len() ==> (#[trigger] events_before(all, before)[i]).sequence < before,
    decreases all.len(),
{
    if all.len() > 0 {
        lemma_events_before(all.drop_last(), before);
        let init = events_before(all.drop_last(), before);
        assert forall|i: int| 0 <= i < events_before(all, before).len() implies (#[trigger] events_before(all, before)[i]).sequence < before by {
            if i < init.len() {
                assert(events_before(all, before)[i] == init[i]);
            }
        }
    }
}

/// Without a cursor the page is the newest events: the last `min(limit, n)`
/// stored events in log order, so it ends with the newest stored event (whose
/// sequence is the head); more are before it exactly when the log holds more
/// than the limit.
pub proof fn law_newest_page(all: Seq<SessionEvent>, limit: u32)
    ensures
        ({
            let n = fetch_limit(limit) as int;
            let m = if all.len() < n {
                all.len() as int
            } else {
                n
            };
            let p = page_spec(all, 0, 0, limit);
            &&& p.0.len() == m
            &&& forall|i: int| 0 <= i < m ==> #[trigger] p.0[i] == all[all.len() - m + i]
            &&& all.len() > 0 ==> p.0.last() == all.last() && p.3 == all.last().sequence
            &&& p.1 == (all.len() > n)
            &&& !p.2
        }),
{
}

/// With an `after` cursor the page is the oldest events newer than it, at
/// most the limit, in log order; with a `before` cursor it is the newest
/// events older than it, at most the limit.
pub proof fn law_cursor_pages(all: Seq<SessionEvent>, before: u64, after: u64, limit: u32)
    ensures
        ({
            let n = fetch_limit(limit) as int;
            let p = page_spec(all, before, after, limit);
            &&& after > 0 ==> p.0.len() <= n && p.0 == events_after(all, after).take(p.0.len() as int)
                && forall|i: int| 0 <= i < p.0.len() ==> (#[trigger] p.0[i]).sequence > after
            &&& after == 0 && before > 0 ==> ({
                let older = events_before(all, before);
                &&& p.0.len() <= n
                &&& p.0 == older.skip(older.len() - p.0.len())
                &&& forall|i: int| 0 <= i < p.0.len() ==> (#[trigger] p.0[i]).sequence < before
            })
        }),
{
    lemma_events_after(all, after);
    lemma_events_before(all, before);
    let n = fetch_limit(limit) as int;
    let p = page_spec(all, before, after, limit);
    if after > 0 {
        let newer = events_after(all, after);
        if newer.len() <= n {
            assert(newer.take(newer.len() as int) =~= newer);
        }
        assert forall|i: int| 0 <= i < p.0.len() implies (#[trigger] p.0[i]).sequence > after by {
            assert(p.0[i] == newer[i]);
        }
    } else if before > 0 {
        let older = events_before(all, before);
        assert forall|i: int| 0 <= i < p.0.len() implies (#[trigger] p.0[i]).sequence < before by {
            assert(p.0[i] == older[older.len() - p.0.len() + i]);
        }
    }
}

fn filter_after(all: &Vec<SessionEvent>, after: u64) -> (r: Vec<SessionEvent>)
    ensures
        r@ == events_after(all@, after),
{
    let mut r: Vec<SessionEvent> = Vec::new();
    let mut i: usize = 0;
    while i < all.len()
        invariant
            i <= all.len(),
            r@ == events_after(all@.take(i as int), after),
        decreases all.len() - i,
    {
        assert(all@.take(i + 1).drop_last() =~= all@.take(i as int));
        if all[i].sequence > after {
            r.push(all[i].duplicate());
        }
        i = i + 1;
    }
    assert(all@.take(all.len() as int) =~= all@);
    r
}

fn filter_before(all: &Vec<SessionEvent>, before: u64) -> (r: Vec<SessionEvent>)
    ensures
        r@ == events_before(all@, before),
{
    let mut r: Vec<SessionEvent> = Vec::new();
    let mut i: usize = 0;
    while i < all.len()
        invariant
            i <= all.len(),
            r@ == events_before(all@.take(i as int), before),
        decreases all.len() - i,
    {
        assert(all@.take(i + 1).drop_last() =~= all@.take(i as int));
        if all[i].sequence < before {
            r.push(all[i].duplicate());
        }
        i = i + 1;
    }
    assert(all@.take(all.len() as int) =~= all@);
    r
}

fn copy_range(v: &Vec<SessionEvent>, from: usize, to: usize) -> (r: Vec<SessionEvent>)
    requires
        from <= to <= v.len(),
    ensures
        r@ == v@.subrange(from as int, to as int),
{
    let mut r: Vec<SessionEvent> = Vec::new();
    let mut i: usize = from;
    while i < to
        invariant
            from <= i <= to <= v.len(),
            r@ == v@.subrange(from as int, i as int),
        decreases to - i,
    {
        r.push(v[i].duplicate());
        assert(r@ =~= v@.subrange(from as int, i + 1));
        i = i + 1;
    }
    r
}

/// Pages the stored events of one session: incremental after `after`, older
/// before `before`, otherwise the newest page.
pub fn page_events(all: &Vec<SessionEvent>, before_sequence: u64, after_sequence: u64, limit: u32) -> (p: FetchPage)
    ensures
        (p.events@, p.has_more_before, p.has_more_after, p.head_sequence) == page_spec(
            all@,
            before_sequence,
            after_sequence,
            limit,
        ),
{
    let n = normalize_limit(limit) as usize;
    let head = if all.len() == 0 {
        0
    } else {
        all[all.len() - 1].sequence
    };
    if after_sequence > 0 {
        let newer = filter_after(all, after_sequence);
        let take = if newer.len() > n {
            n
        } else {
            newer.len()
        };
        let events = copy_range(&newer, 0, take);
        assert(newer.len() > n ==> events@ =~= newer@.take(n as int));
        assert(newer.len() <= n ==> events@ =~= newer@);
        return FetchPage {
            has_more_after: newer.len() > events.len(),
            events,
            has_more_before: false,
            head_sequence: head,
        };
    }
    if before_sequence > 0 {
        let older = filter_before(all, before_sequence);
        let start = if older.len() > n {
            older.len() - n
        } else {
            0
        };
        let events = copy_range(&older, start, older.len());
        assert(events@ =~= older@.skip(start as int));
        return FetchPage { events, has_more_before: start > 0, has_more_after: false, head_sequence: head };
    }
    let start = if all.len() > n {
        all.len() - n
    } else {
        0
    };
    let events = copy_range(all, start, all.len());
    assert(events@ =~= all@.skip(start as int));
    FetchPage { events, has_more_before: start > 0, has_more_after: false, head_sequence: head }
}

/// One history line per operator prompt and non-empty assistant chunk.
pub open spec fn history_lines(events: Seq<SessionEvent>) -> Seq<Seq<char>>
    decreases events.len(),
{
    if events.len() == 0 {
        Seq::<Seq<char>>::empty()
    } else {
        let init = history_lines(events.drop_last());
        let e = events.last();
        if e.event@ == "operator_prompt"@ {
            init.push("User: "@ + trim(e.text@))
        } else if e.event@ == "chunk"@ && e.text@.len() > 0 {
            init.push("Assistant: "@ + trim(e.text@))
        } else {
            init
        }
    }
}

/// `[session_history]` followed by the history lines of the newest page,
/// empty when there are none.
pub open spec fn history_prefix(all: Seq<SessionEvent>) -> Seq<char> {
    let lines = history_lines(page_spec(all, 0, 0, MAX_FETCH_LIMIT).0);
    if lines.len() == 0 {
        Seq::<char>::empty()
    } else {
        crate::path::join_with(seq!["[session_history]"@] + lines, seq!['\n'])
    }
}

/// Lines, each after a line feed.
pub open spec fn after_newlines(lines: Seq<Seq<char>>) -> Seq<char>
    decreases lines.len(),
{
    if lines.len() == 0 {
        Seq::<char>::empty()
    } else {
        after_newlines(lines.drop_last()) + seq!['\n'] + lines.last()
    }
}

proof fn lemma_join_after_head(h: Seq<char>, lines: Seq<Seq<char>>)
    ensures
        crate::path::join_with(seq![h] + lines, seq!['\n']) == h + after_newlines(lines),
    decreases lines.len(),
{
    if lines.len() == 0 {
        assert(seq![h] + lines =~= seq![h]);
        assert(h + Seq::<char>::empty() =~= h);
    } else {
        lemma_join_after_head(h, lines.drop_last());
        assert((seq![h] + lines).drop_last() =~= seq![h] + lines.drop_last());
        assert((seq![h] + lines).last() == lines.last());
        assert(h + after_newlines(lines.drop_last()) + seq!['\n'] + lines.last() =~= h + (after_newlines(
            lines.drop_last(),
        ) + seq!['\n'] + lines.last()));
    }
}

proof fn lemma_history_lines_labelled(events: Seq<SessionEvent>)
    ensures
        forall|i: int|
            0 <= i < history_lines(events).len() ==> starts_with(
                #[trigger] history_lines(events)[i],
                "User: "@,
            ) || starts_with(history_lines(events)[i], "Assistant: "@),
    decreases events.len(),
{
    if events.len() > 0 {
        lemma_history_lines_labelled(events.drop_last());
        let init = history_lines(events.drop_last());
        let e = events.last();
        let u = "User: "@ + trim(e.text@);
        let a = "Assistant: "@ + trim(e.text@);
        assert(u.take("User: "@.len() as int) =~= "User: "@);
        assert(a.take("Assistant: "@.len() as int) =~= "Assistant: "@);
        let l = history_lines(events);
        assert forall|i: int| 0 <= i < l.len() implies starts_with(#[trigger] l[i], "User: "@) || starts_with(
            l[i],
            "Assistant: "@,
        ) by {
            if i < init.len() {
                assert(l[i] == init[i]);
            }
        }
    }
}

/// The history prefix of a prompt: nothing when the last page of the session
/// holds no prompt and no non-empty answer; otherwise `[session_history]`
/// followed, line by line, by `User: <prompt>` and `Assistant: <answer>` in
/// sequence order.
pub proof fn law_history_prefix_format(all: Seq<SessionEvent>)
    ensures
        ({
            let lines = history_lines(page_spec(all, 0, 0, MAX_FETCH_LIMIT).0);
            &&& history_prefix(all) == if lines.len() == 0 {
                Seq::<char>::empty()
            } else {
                "[session_history]"@ + after_newlines(lines)
            }
            &&& forall|i: int|
                0 <= i < lines.len() ==> starts_with(#[trigger] lines[i], "User: "@) || starts_with(
                    lines[i],
                    "Assistant: "@,
                )
        }),
{
    let lines = history_lines(page_spec(all, 0, 0, MAX_FETCH_LIMIT).0);
    lemma_join_after_head("[session_history]"@, lines);
    lemma_history_lines_labelled(page_spec(all, 0, 0, MAX_FETCH_LIMIT).0);
}


/// Access to the per-session event logs under `<workspace>/.rex/sessions/`.
pub struct HarnessSessionStore {
    pub sessions_dir: Option<String>,
}

/// `root` joined with `rel` as a path.
pub open spec fn path_join(root: Seq<char>, rel: Seq<char>) -> Seq<char> {
    if root.len() == 0 || ends_with(root, seq!['/']) {
        root + rel
    } else {
        root + seq!['/'] + rel
    }
}

pub fn join_path(root: &str, rel: &str) -> (s: String)
    ensures
        s@ == path_join(root@, rel@),
{
    let r = chars_of(root);
    let mut slash: Vec<char> = Vec::new();
    slash.push('/');
    assert(slash@ =~= seq!['/']);
    proof {
        reveal_strlit("/");
    }
    if r.len() == 0 || ends_with_vec(&r, &slash) {
        String::from_str(root).concat(rel)
    } else {
        String::from_str(root).concat("/").concat(rel)
    }
}

impl HarnessSessionStore {
    /// A store rooted at the workspace the settings resolve.
    pub fn new(settings: &Settings) -> (s: HarnessSessionStore)
        ensures
            settings.workspace_root is None ==> s.sessions_dir is None,
            settings.workspace_root is Some ==> s.sessions_dir is Some && s.sessions_dir->0@
                == path_join(path_join(settings.workspace_root->0@, ".rex"@), "sessions"@),
    {
        match &settings.workspace_root {
            Some(root) => {
                let rex = join_path(root.as_str(), ".rex");
                HarnessSessionStore { sessions_dir: Some(join_path(rex.as_str(), SESSIONS_DIR)) }
            },
            None => HarnessSessionStore { sessions_dir: None },
        }
    }

    /// `<workspace>/.rex/sessions/<id>.jsonl` for a valid session id.
    pub fn session_log_path(&self, harness_session_id: &str) -> (r: Result<String, SessionStoreError>)
        ensures
            self.sessions_dir is None ==> r == Err::<String, SessionStoreError>(
                SessionStoreError::WorkspaceNotConfigured,
            ),
            self.sessions_dir is Some ==> (r is Ok <==> valid_session_id(harness_session_id@)),
            self.sessions_dir is Some && r is Err ==> r->Err_0 == SessionStoreError::InvalidSessionId,
            r is Ok ==> r->Ok_0@ == path_join(
                self.sessions_dir->0@,
                trim(harness_session_id@) + ".jsonl"@,
            ),
    {
        match &self.sessions_dir {
            None => Err(SessionStoreError::WorkspaceNotConfigured),
            Some(dir) => {
                let safe = sanitize_session_id(harness_session_id)?;
                let file = safe.concat(".jsonl");
                Ok(join_path(dir.as_str(), file.as_str()))
            },
        }
    }

    /// The page of a session's stored events (see [`page_events`]); a blank
    /// session id yields an empty page.
    pub fn fetch_events(
        &self,
        harness_session_id: &str,
        stored: &Vec<SessionEvent>,
        before_sequence: u64,
        after_sequence: u64,
        limit: u32,
    ) -> (p: FetchPage)
        ensures
            trim(harness_session_id@).len() == 0 ==> p.events@.len() == 0 && !p.has_more_before
                && !p.has_more_after && p.head_sequence == 0,
            trim(harness_session_id@).len() > 0 ==> (
                p.events@,
                p.has_more_before,
                p.has_more_after,
                p.head_sequence,
            ) == page_spec(stored@, before_sequence, after_sequence, limit),
    {
        if trim_vec(&chars_of(harness_session_id)).len() == 0 {
            return FetchPage {
                events: Vec::new(),
                has_more_before: false,
                has_more_after: false,
                head_sequence: 0,
            };
        }
        page_events(stored, before_sequence, after_sequence, limit)
    }

    /// The transcript prefix rebuilt from a session's stored events.
    pub fn history_prefix_for_prompt(&self, stored: &Vec<SessionEvent>) -> (s: String)
        ensures
            s@ == history_prefix(stored@),
    {
        let page = page_events(stored, 0, 0, MAX_FETCH_LIMIT);
        let lines = history_lines_vec(&page.events);
        if lines.len() == 0 {
            return String::new();
        }
        let mut parts: Vec<Vec<char>> = Vec::new();
        parts.push(chars_of("[session_history]"));
        let mut i: usize = 0;
        while i < lines.len()
            invariant
                i <= lines.len(),
                crate::path::views(parts@) == seq!["[session_history]"@] + crate::path::views(
                    lines@,
                ).take(i as int),
            decreases lines.len() - i,
        {
            let ghost before = crate::path::views(parts@);
            parts.push(crate::text::clone_chars(&lines[i]));
            assert(crate::path::views(parts@) =~= before.push(lines@[i as int]@));
            assert(crate::path::views(lines@).take(i + 1) =~= crate::path::views(lines@).take(
                i as int,
            ).push(lines@[i as int]@));
            assert(crate::path::views(parts@) =~= seq!["[session_history]"@] + crate::path::views(
                lines@,
            ).take(i + 1));
            i = i + 1;
        }
        assert(crate::path::views(lines@).take(lines.len() as int) =~= crate::path::views(lines@));
        let mut nl: Vec<char> = Vec::new();
        nl.push('\n');
        string_of(&crate::path::join_vec(&parts, &nl))
    }
}

fn history_lines_vec(events: &Vec<SessionEvent>) -> (r: Vec<Vec<char>>)
    ensures
        crate::path::views(r@) == history_lines(events@),
{
    let mut r: Vec<Vec<char>> = Vec::new();
    let mut i: usize = 0;
    while i < events.len()
        invariant
            i <= events.len(),
            crate::path::views(r@) == history_lines(events@.take(i as int)),
        decreases events.len() - i,
    {
        assert(events@.take(i + 1).drop_last() =~= events@.take(i as int));
        let e = &events[i];
        let ev = chars_of(e.event.as_str());
        if crate::text::eq_vec(&ev, &chars_of("operator_prompt")) {
            let line = crate::text::concat_vec(&chars_of("User: "), &trim_vec(&chars_of(e.text.as_str())));
            r.push(line);
            assert(crate::path::views(r@) =~= history_lines(events@.take(i + 1)));
        } else if crate::text::eq_vec(&ev, &chars_of("chunk")) && !e.text.as_str().is_empty() {
            assert(e.text@.len() > 0);
            let line = crate::text::concat_vec(&chars_of("Assistant: "), &trim_vec(&chars_of(e.text.as_str())));
            r.push(line);
            assert(crate::path::views(r@) =~= history_lines(events@.take(i + 1)));
        } else {
            proof {
                if e.event@ == "chunk"@ {
                    assert(e.text@.len() == 0);
                }
            }
        }
        i = i + 1;
    }
    assert(events@.take(events.len() as int) =~= events@);
    r
}


/// The chunk recorded for an operator's prompt.
pub fn operator_prompt_chunk(prompt: &str, turn_id: &str) -> (c: StreamInferenceResponse)
    ensures
        c.event@ == "operator_prompt"@,
        c.text@ == prompt@,
        c.turn_id@ == turn_id@,
        c.index == 0,
        !c.done,
        c.tool_name@ == Seq::<char>::empty(),
        c.phase@ == Seq::<char>::empty(),
        c.summary@ == Seq::<char>::empty(),
        c.detail@ == Seq::<char>::empty(),
        c.tool_call_id@ == Seq::<char>::empty(),
        c.elapsed_ms == 0,
{
    StreamInferenceResponse {
        text: String::from_str(prompt),
        index: 0,
        done: false,
        event: String::from_str("operator_prompt"),
        turn_id: String::from_str(turn_id),
        tool_name: String::new(),
        phase: String::new(),
        summary: String::new(),
        detail: String::new(),
        tool_call_id: String::new(),
        elapsed_ms: 0,
    }
}

impl HarnessSessionStore {
    /// Where and what to append for a chunk of a session whose stored events
    /// are `stored`: nothing for a blank session id; else the session's log
    /// path and the chunk's record under the next sequence number.
    pub fn append_plan(
        &self,
        harness_session_id: &str,
        stored: &Vec<SessionEvent>,
        chunk: &StreamInferenceResponse,
    ) -> (r: Result<Option<(String, SessionEvent)>, SessionStoreError>)
        requires
            stored@.len() > 0 ==> stored@.last().sequence < u64::MAX,
        ensures
            trim(harness_session_id@).len() == 0 ==> r matches Ok(None),
            trim(harness_session_id@).len() > 0 && self.sessions_dir is None ==> r == Err::<
                Option<(String, SessionEvent)>,
                SessionStoreError,
            >(SessionStoreError::WorkspaceNotConfigured),
            trim(harness_session_id@).len() > 0 && self.sessions_dir is Some ==> ({
                &&& (r is Ok <==> valid_session_id(harness_session_id@))
                &&& r is Err ==> r->Err_0 == SessionStoreError::InvalidSessionId
                &&& r matches Ok(Some((path, e))) ==> path@ == path_join(
                    self.sessions_dir->0@,
                    trim(harness_session_id@) + ".jsonl"@,
                ) && e.sequence == next_sequence_after(stored@) && e.event == chunk.event
                    && e.text == chunk.text && e.turn_id == chunk.turn_id && e.tool_name
                    == chunk.tool_name && e.phase == chunk.phase && e.summary == chunk.summary
                    && e.detail == chunk.detail && e.tool_call_id == chunk.tool_call_id
                    && e.elapsed_ms == chunk.elapsed_ms && e.done == chunk.done
                &&& r is Ok ==> r->Ok_0 is Some
            }),
    {
        if trim_vec(&chars_of(harness_session_id)).len() == 0 {
            return Ok(None);
        }
        let path = self.session_log_path(harness_session_id)?;
        let sequence = next_sequence(stored);
        Ok(Some((path, event_from_chunk(sequence, chunk))))
    }
}

} // verus!
