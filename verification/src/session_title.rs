//! Session display titles: sanitization, the prompt-derived title, the
//! fallback name, and the periodic model-assisted title refresh.
use vstd::prelude::*;

use crate::session_store::{SessionMeta, SessionStoreError};
use crate::text::{
    byte_len, chars_of, chars_within_bytes, collapse_ws, collapse_ws_vec, decimal, lower, lower_vec,
    string_of, trim, trim_vec,
};

verus! {

pub const MAX_TITLE_LEN: usize = 48;

/// Whitespace collapsed to single spaces; longer than 48 bytes is cut at the
/// last character boundary within 48 bytes and marked with `…`.
pub open spec fn sanitized_title(raw: Seq<char>) -> Seq<char> {
    let t = trim(collapse_ws(raw));
    if t.len() == 0 {
        Seq::<char>::empty()
    } else if byte_len(t) <= MAX_TITLE_LEN {
        t
    } else {
        t.take(chars_within_bytes(t, MAX_TITLE_LEN as nat) as int).push('…')
    }
}

pub fn sanitize_title(raw: &str) -> (s: String)
    ensures
        s@ == sanitized_title(raw@),
{
    let collapsed = collapse_ws_vec(&chars_of(raw));
    let t = trim_vec(&collapsed);
    if t.len() == 0 {
        return String::new();
    }
    if crate::text::byte_len_vec(&t) <= MAX_TITLE_LEN {
        return string_of(&t);
    }
    let k = crate::text::chars_within_bytes_vec(&t, MAX_TITLE_LEN);
    proof {
        crate::text::lemma_chars_within_bytes_bounds(t@, MAX_TITLE_LEN as nat);
    }
    let mut head = crate::text::slice_vec(&t, 0, k);
    head.push('…');
    assert(head@ =~= t@.take(k as int).push('…'));
    string_of(&head)
}

/// The fallback title is `Chat ` and the session id's last characters: six
/// of them, or the whole id when it is shorter.
pub proof fn law_fallback_title_ends_with_id(session_id: Seq<char>)
    ensures
        ({
            let m: int = if session_id.len() < 6 {
                session_id.len() as int
            } else {
                6
            };
            let t = fallback_title(session_id);
            &&& t.len() == 5 + m
            &&& t.take(5) == "Chat "@
            &&& forall|i: int| 0 <= i < m ==> #[trigger] t[5 + i] == session_id[session_id.len() - m + i]
        }),
{
    reveal_strlit("Chat ");
    let t = fallback_title(session_id);
    assert(t.take(5) =~= "Chat "@);
}

/// Sanitizing a sanitized title gives it back unchanged.
pub proof fn law_sanitize_title_idempotent(raw: Seq<char>)
    ensures
        sanitized_title(sanitized_title(raw)) == sanitized_title(raw),
{
    let c = collapse_ws(raw);
    crate::text::lemma_collapse_clean(raw);
    let t = trim(c);
    assert(t == c);
    let s = sanitized_title(raw);
    if t.len() == 0 {
        assert(s.len() == 0);
        crate::text::lemma_collapse_clean(s);
        assert(collapse_ws(s).len() == 0) by {
            assert(s =~= Seq::<char>::empty());
        }
    } else if byte_len(t) <= MAX_TITLE_LEN {
        crate::text::lemma_collapse_spaced(t);
        crate::text::lemma_trim_spaced(t);
    } else {
        crate::text::lemma_chars_within_bytes_bounds(t, MAX_TITLE_LEN as nat);
        let k = chars_within_bytes(t, MAX_TITLE_LEN as nat) as int;
        assert(k < t.len()) by {
            if k == t.len() {
                assert(t.take(k) =~= t);
            }
        }
        let p = t.take(k);
        let ell = '…';
        assert(!crate::text::is_ws(ell));
        assert(s == p.push(ell));
        assert(crate::text::spaced(s)) by {
            assert forall|i: int| 0 <= i < s.len() && crate::text::is_ws(#[trigger] s[i]) implies s[i] == ' ' && i > 0
                && !crate::text::is_ws(s[i - 1]) by {
                assert(i < k);
                assert(s[i] == t[i]);
                if i > 0 {
                    assert(s[i - 1] == t[i - 1]);
                }
            }
        }
        assert(s.last() == ell);
        crate::text::lemma_collapse_spaced(s);
        crate::text::lemma_trim_spaced(s);
        crate::text::lemma_byte_len_push(p, ell);
        if byte_len(s) > MAX_TITLE_LEN {
            assert(s.take(k) =~= p);
            assert(s.take(k + 1) =~= s);
            crate::text::lemma_chars_within_bytes_exact(s, MAX_TITLE_LEN as nat, k);
        }
    }
}

/// A sanitized title never exceeds 48 bytes plus the three-byte ellipsis.
pub proof fn law_sanitized_title_is_bounded(raw: Seq<char>)
    ensures
        byte_len(sanitized_title(raw)) <= MAX_TITLE_LEN + 3,
{
    let t = trim(collapse_ws(raw));
    if t.len() > 0 && byte_len(t) > MAX_TITLE_LEN {
        crate::text::lemma_chars_within_bytes_bounds(t, MAX_TITLE_LEN as nat);
        let k = chars_within_bytes(t, MAX_TITLE_LEN as nat) as int;
        crate::text::lemma_byte_len_push(t.take(k), '…');
    }
}

pub fn title_from_prompt(prompt: &str) -> (s: String)
    ensures
        s@ == sanitized_title(prompt@),
{
    sanitize_title(prompt)
}

/// `Chat <last six characters of the session id>`.
pub open spec fn fallback_title(session_id: Seq<char>) -> Seq<char> {
    let start = if session_id.len() > 6 {
        session_id.len() - 6
    } else {
        0
    };
    "Chat "@ + session_id.skip(start)
}

pub fn title_fallback_suffix(session_id: &str) -> (s: String)
    ensures
        s@ == fallback_title(session_id@),
{
    let v = chars_of(session_id);
    let start = if v.len() > 6 {
        v.len() - 6
    } else {
        0
    };
    let tail = crate::text::slice_vec(&v, start, v.len());
    assert(tail@ =~= v@.skip(start as int));
    String::from_str("Chat ").concat(string_of(&tail).as_str())
}

/// The title refresh runs on every `refresh_every`-th completed turn (at least every turn).
pub open spec fn title_refresh_due(completed_turns: u32, refresh_every: u32) -> bool {
    let every = if refresh_every == 0 {
        1
    } else {
        refresh_every
    };
    completed_turns != 0 && completed_turns % every == 0
}

pub fn should_run_title_fallback(completed_turns: u32, refresh_every: u32) -> (b: bool)
    ensures
        b == title_refresh_due(completed_turns, refresh_every),
{
    if completed_turns == 0 {
        return false;
    }
    let every = if refresh_every == 0 {
        1
    } else {
        refresh_every
    };
    completed_turns % every == 0
}

#[verifier::external_type_specification]
#[verifier::external_body]
pub struct ExSystemTime(std::time::SystemTime);

#[verifier::external_type_specification]
#[verifier::external_body]
pub struct ExSystemTimeError(std::time::SystemTimeError);

/// `std::time::SystemTime::now`: the clock's reading. Nothing is claimed of it.
#[verifier::external_body]
fn system_now() -> std::time::SystemTime {
    std::time::SystemTime::now()
}

/// `SystemTime::duration_since(UNIX_EPOCH)`: the time since the Unix epoch, an
/// error when the reading is before it. Nothing is claimed of which comes.
#[verifier::external_body]
fn since_unix_epoch(t: &std::time::SystemTime) -> Result<std::time::Duration, std::time::SystemTimeError> {
    t.duration_since(std::time::UNIX_EPOCH)
}

/// `Duration::as_secs`: the whole seconds of a duration. Nothing is claimed of
/// the value.
#[verifier::external_body]
fn duration_secs(d: &std::time::Duration) -> u64 {
    d.as_secs()
}

/// Seconds since the Unix epoch, `None` when the clock reads before it.
fn unix_time_secs() -> Option<u64> {
    match since_unix_epoch(&system_now()) {
        Ok(d) => Some(duration_secs(&d)),
        Err(_) => None,
    }
}

/// The current time as the decimal seconds recorded in `updated_at` (`"0"` if unknown).
pub fn chrono_now() -> (s: String)
    ensures
        exists|n: u64| s@ == decimal(n as nat),
{
    let n = match unix_time_secs() {
        Some(n) => n,
        None => 0,
    };
    string_of(&crate::text::decimal_vec(n))
}

/// Set a title chosen by the title tool, stamped with `now`.
pub fn apply_tool_title_at(meta: &mut SessionMeta, title: &str, now: String) -> (r: Result<(), SessionStoreError>)
    ensures
        sanitized_title(title@).len() == 0 ==> r == Err::<(), SessionStoreError>(
            SessionStoreError::InvalidTitle,
        ) && *final(meta) == *old(meta),
        sanitized_title(title@).len() > 0 ==> r is Ok && final(meta).title@ == sanitized_title(
            title@,
        ) && final(meta).title_source@ == "tool"@ && final(meta).updated_at == now
            && final(meta).completed_turns == old(meta).completed_turns,
{
    let next = sanitize_title(title);
    if next.as_str().is_empty() {
        return Err(SessionStoreError::InvalidTitle);
    }
    meta.title = next;
    meta.title_source = String::from_str("tool");
    meta.updated_at = now;
    Ok(())
}

/// Set a title chosen by the title tool, stamped with the current time.
pub fn apply_tool_title(meta: &mut SessionMeta, title: &str) -> (r: Result<(), SessionStoreError>)
    ensures
        sanitized_title(title@).len() == 0 ==> r == Err::<(), SessionStoreError>(
            SessionStoreError::InvalidTitle,
        ) && *final(meta) == *old(meta),
        sanitized_title(title@).len() > 0 ==> r is Ok && final(meta).title@ == sanitized_title(
            title@,
        ) && final(meta).title_source@ == "tool"@ && final(meta).completed_turns == old(
            meta,
        ).completed_turns,
{
    let now = chrono_now();
    apply_tool_title_at(meta, title, now)
}

// ---------------------------------------------------------------------------
// Periodic title refresh (one completed turn at a time)
// ---------------------------------------------------------------------------

/// What the caller does next in a title refresh.
#[derive(Debug, Clone, PartialEq, Eq)]
pub enum TitleRefreshAction {
    /// Nothing to do (blank session id).
    Skip,
    /// Persist the metadata and stop.
    WriteMeta,
    /// Read the recent transcript excerpt (the last eight entries) and come back.
    FetchExcerpt,
    /// Ask the model with this prompt and come back with its reply.
    AskModel { prompt: String },
}

/// Turn counter after one more completed turn (saturating).
pub open spec fn bumped_turns(n: u32) -> u32 {
    if n == u32::MAX {
        n
    } else {
        (n + 1) as u32
    }
}

/// First step: count the completed turn and decide whether a refresh is due.
pub fn title_refresh_begin(
    harness_session_id: &str,
    meta: &mut SessionMeta,
    refresh_every: u32,
) -> (a: TitleRefreshAction)
    ensures
        trim(harness_session_id@).len() == 0 ==> a == TitleRefreshAction::Skip && *final(meta)
            == *old(meta),
        trim(harness_session_id@).len() > 0 ==> final(meta).completed_turns == bumped_turns(
            old(meta).completed_turns,
        ) && final(meta).title == old(meta).title && final(meta).title_source == old(
            meta,
        ).title_source && final(meta).updated_at == old(meta).updated_at && (a == if title_refresh_due(
            final(meta).completed_turns,
            refresh_every,
        ) {
            TitleRefreshAction::FetchExcerpt
        } else {
            TitleRefreshAction::WriteMeta
        }),
{
    if trim_vec(&chars_of(harness_session_id)).len() == 0 {
        return TitleRefreshAction::Skip;
    }
    meta.completed_turns = if meta.completed_turns == u32::MAX {
        meta.completed_turns
    } else {
        meta.completed_turns + 1
    };
    if should_run_title_fallback(meta.completed_turns, refresh_every) {
        TitleRefreshAction::FetchExcerpt
    } else {
        TitleRefreshAction::WriteMeta
    }
}

/// The model prompt asking whether the current title still fits the excerpt.
pub open spec fn title_prompt(current: Seq<char>, excerpt: Seq<char>) -> Seq<char> {
    "Current chat title: \""@ + current + "\"\n\nRecent conversation:\n"@ + excerpt
        + "\n\nReply KEEP if the title still fits. Otherwise reply with a new title only (max 48 characters, no quotes)."@
}

/// Second step: with the transcript excerpt (or the error reading it), ask the
/// model unless there is nothing to summarize.
pub fn title_refresh_after_excerpt(meta: &SessionMeta, excerpt: &Result<String, String>) -> (a: TitleRefreshAction)
    ensures
        match excerpt {
            Err(_) => a == TitleRefreshAction::WriteMeta,
            Ok(text) => if trim(text@).len() == 0 {
                a == TitleRefreshAction::WriteMeta
            } else {
                a matches TitleRefreshAction::AskModel { prompt } && prompt@ == title_prompt(
                    meta.title@,
                    text@,
                )
            },
        },
{
    match excerpt {
        Err(_) => TitleRefreshAction::WriteMeta,
        Ok(text) => {
            if trim_vec(&chars_of(text.as_str())).len() == 0 {
                return TitleRefreshAction::WriteMeta;
            }
            let prompt = String::from_str("Current chat title: \"").concat(meta.title.as_str()).concat(
                "\"\n\nRecent conversation:\n",
            ).concat(text.as_str()).concat(
                "\n\nReply KEEP if the title still fits. Otherwise reply with a new title only (max 48 characters, no quotes).",
            );
            TitleRefreshAction::AskModel { prompt }
        },
    }
}

/// Third step: apply the model's reply. `KEEP` (any case) or an unusable reply
/// keeps the title; a new distinct title is stored with source `llm`.
pub fn title_refresh_apply_reply(meta: &mut SessionMeta, reply: &Result<String, String>, now: String)
    ensures
        match reply {
            Err(_) => *final(meta) == *old(meta),
            Ok(text) => {
                let next = sanitized_title(trim(text@));
                if lower(trim(text@)) == "keep"@ || next.len() == 0 || next == old(meta).title@ {
                    *final(meta) == *old(meta)
                } else {
                    &&& final(meta).title@ == next
                    &&& final(meta).title_source@ == "llm"@
                    &&& final(meta).updated_at == now
                    &&& final(meta).completed_turns == old(meta).completed_turns
                }
            },
        },
{
    match reply {
        Err(_) => {},
        Ok(text) => {
            let trimmed = trim_vec(&chars_of(text.as_str()));
            if crate::text::eq_vec(&lower_vec(&trimmed), &chars_of("keep")) {
                return;
            }
            let next = sanitize_title(string_of(&trimmed).as_str());
            if next.as_str().is_empty() || crate::text::eq_vec(
                &chars_of(next.as_str()),
                &chars_of(meta.title.as_str()),
            ) {
                return;
            }
            meta.title = next;
            meta.title_source = String::from_str("llm");
            meta.updated_at = now;
        },
    }
}

} // verus!
