//! Context pipeline: prompt budgeting, lexical retrieval over workspace
//! documents, extractive packing of retrieved context into a token budget, a
//! per-session exact-prefix cache and a behavioral prefilter.
use vstd::prelude::*;

use crate::adapters::AdapterCapabilities;
use crate::order::{keys_view, rank, ranking};
use crate::settings::Settings;
use crate::text::{
    append_vec, chars_of, clone_chars, concat_vec, contains, contains_vec, ends_with, is_ascii_alnum,
    lower, lower_vec, starts_with, string_of, trim, trim_vec,
};

verus! {

// ---------------------------------------------------------------------------
// Tokens and budgets
// ---------------------------------------------------------------------------

/// Estimated tokens of a text: one per four characters, rounded up.
pub open spec fn tokens(s: Seq<char>) -> nat {
    ((s.len() + 3) / 4) as nat
}

/// Rough token estimate: characters divided by four, rounded up.
pub fn estimate_tokens(text: &str) -> (n: usize)
    ensures
        n == tokens(text@),
{
    let n = chars_of(text).len();
    n / 4 + if n % 4 == 0 {
        0
    } else {
        1
    }
}

fn tokens_vec(v: &Vec<char>) -> (n: usize)
    ensures
        n == tokens(v@),
{
    v.len() / 4 + if v.len() % 4 == 0 {
        0
    } else {
        1
    }
}

/// Prompt and context token limits.
#[derive(Debug, Clone, Copy, PartialEq, Eq, Structural)]
pub struct TokenBudget {
    pub max_prompt_tokens: usize,
    pub max_context_tokens: usize,
}

impl Default for TokenBudget {
    fn default() -> (b: Self)
        ensures
            b.max_prompt_tokens == 512,
            b.max_context_tokens == 192,
    {
        TokenBudget { max_prompt_tokens: 512, max_context_tokens: 192 }
    }
}

impl TokenBudget {
    /// The configured limits, each at least 1.
    pub fn from_config(settings: &Settings) -> (b: Self)
        ensures
            b.max_prompt_tokens == if settings.max_prompt_tokens < 1 {
                1
            } else {
                settings.max_prompt_tokens
            },
            b.max_context_tokens == if settings.max_context_tokens < 1 {
                1
            } else {
                settings.max_context_tokens
            },
    {
        TokenBudget {
            max_prompt_tokens: if settings.max_prompt_tokens < 1 {
                1
            } else {
                settings.max_prompt_tokens
            },
            max_context_tokens: if settings.max_context_tokens < 1 {
                1
            } else {
                settings.max_context_tokens
            },
        }
    }
}

// ---------------------------------------------------------------------------
// Behavior and retrieval decisions
// ---------------------------------------------------------------------------

#[derive(Debug, Clone, Copy, PartialEq, Eq, Default)]
pub struct BehaviorSnapshot {
    pub typing_cadence_cpm: u16,
    pub pause_events_last_minute: u8,
}

#[derive(Debug, Clone, PartialEq, Eq)]
pub enum BehaviorDecision {
    Allow,
    Suppress { reason: &'static str },
}

#[derive(Debug, Clone, Copy, PartialEq, Eq, Structural)]
pub enum RetrievalDecision {
    Ran,
    Skipped,
    AdvisoryBundle,
}

impl RetrievalDecision {
    /// Stable label of the decision.
    pub fn as_str(self) -> (s: &'static str)
        ensures
            s@ == match self {
                RetrievalDecision::Ran => "ran"@,
                RetrievalDecision::Skipped => "skipped"@,
                RetrievalDecision::AdvisoryBundle => "advisory_bundle"@,
            },
    {
        match self {
            RetrievalDecision::Ran => "ran",
            RetrievalDecision::Skipped => "skipped",
            RetrievalDecision::AdvisoryBundle => "advisory_bundle",
        }
    }
}

/// The user is typing fast without pauses.
pub open spec fn in_focus_flow(s: BehaviorSnapshot) -> bool {
    s.typing_cadence_cpm > 420 && s.pause_events_last_minute == 0
}

#[derive(Debug, Clone)]
pub struct BehavioralPrefilter;

impl BehavioralPrefilter {
    /// Suppress context work while the user is in a fast typing window.
    pub fn evaluate(snapshot: BehaviorSnapshot) -> (d: BehaviorDecision)
        ensures
            in_focus_flow(snapshot) ==> d == (BehaviorDecision::Suppress {
                reason: d->reason,
            }) && d->reason@ == "focused-typing-window"@,
            !in_focus_flow(snapshot) ==> d == BehaviorDecision::Allow,
    {
        if snapshot.typing_cadence_cpm > 420 && snapshot.pause_events_last_minute == 0 {
            BehaviorDecision::Suppress { reason: "focused-typing-window" }
        } else {
            BehaviorDecision::Allow
        }
    }
}

pub struct ContextRequest {
    pub prompt: String,
    pub diagnostics_hint: Option<String>,
    pub cache_bypass: bool,
    pub behavior_snapshot: BehaviorSnapshot,
    /// When true, skip lexical retrieval (directive or gate).
    pub retrieve_off: bool,
    pub active_file_path: Option<String>,
    /// Scopes prefix cache entries per harness terminal.
    pub harness_session_id: String,
}

#[derive(Debug, Clone, Copy, PartialEq, Eq, Structural)]
pub enum CacheStatus {
    Hit,
    MissStored,
    Bypass,
}

#[derive(Debug, Clone)]
pub struct PipelineMetrics {
    pub prompt_tokens: usize,
    pub selected_context_tokens: usize,
    pub context_candidates: usize,
    pub context_selected: usize,
    pub context_truncated: bool,
    pub cache_status: CacheStatus,
    pub behavior_decision: BehaviorDecision,
    pub retrieval: RetrievalDecision,
    pub compression_strategy: &'static str,
    pub knowledge_status: &'static str,
}

#[derive(Debug, Clone)]
pub struct PipelineResult {
    pub effective_prompt: String,
    pub injected_context: String,
    pub injected_paths: Vec<String>,
    pub c1_stripped: bool,
    pub metrics: PipelineMetrics,
}

pub const RETRIEVAL_SKIP_MAX_PROMPT_CHARS: usize = 48;

/// Retrieval is skipped: switched off, or a short non-advisory prompt, or a
/// focused typing window.
pub open spec fn skip_retrieval(
    prompt: Seq<char>,
    retrieve_off: bool,
    snapshot: BehaviorSnapshot,
    advisory_enabled: bool,
) -> bool {
    if retrieve_off {
        true
    } else if advisory_enabled && crate::advisory_intent::is_advisory(prompt) {
        false
    } else if prompt.len() <= RETRIEVAL_SKIP_MAX_PROMPT_CHARS {
        true
    } else {
        in_focus_flow(snapshot)
    }
}

/// Whether lexical retrieval is skipped for `request`.
pub fn should_skip_retrieval(request: &ContextRequest, settings: &Settings) -> (b: bool)
    ensures
        b == skip_retrieval(
            request.prompt@,
            request.retrieve_off,
            request.behavior_snapshot,
            settings.advisory_intent_enabled,
        ),
{
    if request.retrieve_off {
        return true;
    }
    if settings.advisory_intent_enabled && crate::advisory_intent::matches_advisory_intent(
        request.prompt.as_str(),
    ) {
        return false;
    }
    if chars_of(request.prompt.as_str()).len() <= RETRIEVAL_SKIP_MAX_PROMPT_CHARS {
        return true;
    }
    match BehavioralPrefilter::evaluate(request.behavior_snapshot) {
        BehaviorDecision::Suppress { .. } => true,
        BehaviorDecision::Allow => false,
    }
}

// ---------------------------------------------------------------------------
// Terms and scores
// ---------------------------------------------------------------------------

/// Characters that make up a term: ASCII letters, digits and `_`.
pub open spec fn is_term_char(c: char) -> bool {
    is_ascii_alnum(c) || c == '_'
}

/// The maximal runs of term characters of `s`, in order.
pub open spec fn term_runs(s: Seq<char>) -> Seq<Seq<char>>
    decreases s.len(),
{
    if s.len() == 0 {
        Seq::<Seq<char>>::empty()
    } else {
        let w = term_runs(s.drop_last());
        let c = s.last();
        if !is_term_char(c) {
            w
        } else if s.len() >= 2 && is_term_char(s[s.len() - 2]) {
            w.update(w.len() - 1, w.last().push(c))
        } else {
            w.push(seq![c])
        }
    }
}

/// The lowercase terms of a text.
pub open spec fn terms(s: Seq<char>) -> Seq<Seq<char>> {
    term_runs(s).map_values(|t: Seq<char>| lower(t))
}

proof fn lemma_term_runs_nonempty(s: Seq<char>)
    requires
        s.len() > 0,
        is_term_char(s.last()),
    ensures
        term_runs(s).len() > 0,
    decreases s.len(),
{
    if s.len() >= 2 && is_term_char(s[s.len() - 2]) {
        assert(s.drop_last().last() == s[s.len() - 2]);
        lemma_term_runs_nonempty(s.drop_last());
    }
}

fn term_char(c: char) -> (b: bool)
    ensures
        b == is_term_char(c),
{
    crate::text::char_is_ascii_alnum(c) || c == '_'
}

/// The lowercase terms of `text` (split at every character other than ASCII
/// letters, digits and `_`).
pub fn normalized_terms(text: &str) -> (r: Vec<Vec<char>>)
    ensures
        crate::path::views(r@) == terms(text@),
{
    let v = chars_of(text);
    let mut out: Vec<Vec<char>> = Vec::new();
    let mut i: usize = 0;
    while i < v.len()
        invariant
            i <= v.len(),
            crate::path::views(out@) == term_runs(v@.take(i as int)),
        decreases v.len() - i,
    {
        let c = v[i];
        let ghost s1 = v@.take(i + 1);
        assert(s1.drop_last() =~= v@.take(i as int));
        assert(s1.last() == c);
        if term_char(c) {
            if i > 0 && term_char(v[i - 1]) {
                assert(s1[s1.len() - 2] == v@[i - 1]);
                proof {
                    assert(v@.take(i as int).last() == v@[i - 1]);
                    lemma_term_runs_nonempty(v@.take(i as int));
                }
                let last = out.len() - 1;
                let mut w = clone_chars(&out[last]);
                w.push(c);
                out.set(last, w);
                assert(crate::path::views(out@) =~= term_runs(s1));
            } else {
                if i > 0 {
                    assert(s1[s1.len() - 2] == v@[i - 1]);
                }
                let mut w: Vec<char> = Vec::new();
                w.push(c);
                out.push(w);
                assert(crate::path::views(out@) =~= term_runs(s1));
            }
        } else {
            assert(crate::path::views(out@) =~= term_runs(s1));
        }
        i = i + 1;
    }
    assert(v@.take(v.len() as int) =~= v@);
    let mut r: Vec<Vec<char>> = Vec::new();
    let mut j: usize = 0;
    while j < out.len()
        invariant
            j <= out.len(),
            crate::path::views(out@) == term_runs(text@),
            crate::path::views(r@) == term_runs(text@).take(j as int).map_values(
                |t: Seq<char>| lower(t),
            ),
        decreases out.len() - j,
    {
        let ghost before = r@;
        r.push(lower_vec(&out[j]));
        assert(crate::path::views(out@)[j as int] == out@[j as int]@);
        assert(crate::path::views(r@) =~= crate::path::views(before).push(lower(out@[j as int]@)));
        assert(term_runs(text@).take(j + 1).map_values(|t: Seq<char>| lower(t)) =~= term_runs(
            text@,
        ).take(j as int).map_values(|t: Seq<char>| lower(t)).push(lower(out@[j as int]@)));
        assert(crate::path::views(r@) =~= term_runs(text@).take(j + 1).map_values(
            |t: Seq<char>| lower(t),
        ));
        j = j + 1;
    }
    assert(term_runs(text@).take(out.len() as int) =~= term_runs(text@));
    r
}

/// How many query terms (counted with repetition) occur among the document terms.
pub open spec fn score(q: Seq<Seq<char>>, d: Seq<Seq<char>>) -> nat
    decreases q.len(),
{
    if q.len() == 0 {
        0
    } else {
        score(q.drop_last(), d) + if d.contains(q.last()) {
            1nat
        } else {
            0nat
        }
    }
}

proof fn lemma_score_bound(q: Seq<Seq<char>>, d: Seq<Seq<char>>)
    ensures
        score(q, d) <= q.len(),
    decreases q.len(),
{
    if q.len() > 0 {
        lemma_score_bound(q.drop_last(), d);
    }
}

fn contains_term(d: &Vec<Vec<char>>, t: &Vec<char>) -> (b: bool)
    ensures
        b == crate::path::views(d@).contains(t@),
{
    let mut i: usize = 0;
    while i < d.len()
        invariant
            i <= d.len(),
            forall|j: int| 0 <= j < i ==> d@[j]@ != t@,
        decreases d.len() - i,
    {
        if crate::text::eq_vec(&d[i], t) {
            assert(crate::path::views(d@)[i as int] == t@);
            return true;
        }
        i = i + 1;
    }
    let ghost m = crate::path::views(d@);
    assert forall|j: int| 0 <= j < m.len() implies #[trigger] m[j] != t@ by {
        assert(m[j] == d@[j]@);
    }
    false
}

/// Number of query terms found among the document terms.
pub fn score_terms(query_terms: &Vec<Vec<char>>, doc_terms: &Vec<Vec<char>>) -> (n: u64)
    ensures
        n == score(crate::path::views(query_terms@), crate::path::views(doc_terms@)),
{
    let ghost q = crate::path::views(query_terms@);
    let ghost d = crate::path::views(doc_terms@);
    let mut n: u64 = 0;
    let mut i: usize = 0;
    while i < query_terms.len()
        invariant
            i <= query_terms.len(),
            q == crate::path::views(query_terms@),
            d == crate::path::views(doc_terms@),
            n == score(q.take(i as int), d),
            n <= i,
        decreases query_terms.len() - i,
    {
        assert(q.take(i + 1).drop_last() =~= q.take(i as int));
        assert(q.take(i + 1).last() == query_terms@[i as int]@);
        if contains_term(doc_terms, &query_terms[i]) {
            n = n + 1;
        }
        i = i + 1;
    }
    assert(q.take(query_terms.len() as int) =~= q);
    n
}


// ---------------------------------------------------------------------------
// Sorting texts
// ---------------------------------------------------------------------------

/// Ranking keys that order texts alone (weight 0 for all).
pub open spec fn text_keys(s: Seq<Seq<char>>) -> Seq<(nat, Seq<char>)> {
    s.map_values(|t: Seq<char>| (0nat, t))
}

/// `s` sorted by text (a stable sort).
pub open spec fn sorted_texts(s: Seq<Seq<char>>) -> Seq<Seq<char>> {
    ranking(text_keys(s)).map_values(|k: int| s[k])
}

/// `s` without consecutive repeats (`Vec::dedup`).
pub open spec fn dedup(s: Seq<Seq<char>>) -> Seq<Seq<char>>
    decreases s.len(),
{
    if s.len() == 0 {
        s
    } else {
        let d = dedup(s.drop_last());
        if d.len() > 0 && d.last() == s.last() {
            d
        } else {
            d.push(s.last())
        }
    }
}

fn sort_texts(v: &Vec<Vec<char>>) -> (r: Vec<Vec<char>>)
    ensures
        crate::path::views(r@) == sorted_texts(crate::path::views(v@)),
{
    let mut keys: Vec<(u64, Vec<char>)> = Vec::new();
    let mut i: usize = 0;
    while i < v.len()
        invariant
            i <= v.len(),
            keys_view(keys@) == text_keys(crate::path::views(v@)).take(i as int),
        decreases v.len() - i,
    {
        let ghost before = keys@;
        keys.push((0, clone_chars(&v[i])));
        assert(keys_view(keys@) =~= keys_view(before).push((0nat, v@[i as int]@)));
        assert(text_keys(crate::path::views(v@)).take(i + 1) =~= text_keys(
            crate::path::views(v@),
        ).take(i as int).push((0nat, v@[i as int]@)));
        i = i + 1;
    }
    assert(text_keys(crate::path::views(v@)).take(v.len() as int) =~= text_keys(
        crate::path::views(v@),
    ));
    let order = rank(&keys);
    let ghost ord = order@.map_values(|x: usize| x as int);
    let mut r: Vec<Vec<char>> = Vec::new();
    let mut j: usize = 0;
    while j < order.len()
        invariant
            j <= order.len(),
            order@.len() == v@.len(),
            ord == order@.map_values(|x: usize| x as int),
            forall|k: int| 0 <= k < order@.len() ==> order@[k] < v@.len(),
            crate::path::views(r@) == ord.take(j as int).map_values(
                |k: int| crate::path::views(v@)[k],
            ),
        decreases order.len() - j,
    {
        let ghost before = r@;
        r.push(clone_chars(&v[order[j]]));
        assert(ord[j as int] == order@[j as int] as int);
        assert(crate::path::views(r@) =~= crate::path::views(before).push(
            crate::path::views(v@)[ord[j as int]],
        ));
        assert(ord.take(j + 1) =~= ord.take(j as int).push(ord[j as int]));
        assert(crate::path::views(r@) =~= ord.take(j + 1).map_values(
            |k: int| crate::path::views(v@)[k],
        ));
        j = j + 1;
    }
    assert(ord.take(order.len() as int) =~= ord);
    r
}

fn dedup_texts(v: &Vec<Vec<char>>) -> (r: Vec<Vec<char>>)
    ensures
        crate::path::views(r@) == dedup(crate::path::views(v@)),
{
    let ghost s = crate::path::views(v@);
    let mut r: Vec<Vec<char>> = Vec::new();
    let mut i: usize = 0;
    while i < v.len()
        invariant
            i <= v.len(),
            s == crate::path::views(v@),
            crate::path::views(r@) == dedup(s.take(i as int)),
        decreases v.len() - i,
    {
        assert(s.take(i + 1).drop_last() =~= s.take(i as int));
        assert(s.take(i + 1).last() == v@[i as int]@);
        if r.len() > 0 && crate::text::eq_vec(&r[r.len() - 1], &v[i]) {
            assert(crate::path::views(r@).last() == r@[r.len() - 1]@);
        } else {
            let ghost before = r@;
            r.push(clone_chars(&v[i]));
            proof {
                if before.len() > 0 {
                    assert(crate::path::views(before).last() == before[before.len() - 1]@);
                }
            }
            assert(crate::path::views(r@) =~= crate::path::views(before).push(v@[i as int]@));
        }
        i = i + 1;
    }
    assert(s.take(v.len() as int) =~= s);
    r
}

fn strings_from(v: &Vec<Vec<char>>) -> (r: Vec<String>)
    ensures
        r@.map_values(|x: String| x@) == crate::path::views(v@),
{
    let mut r: Vec<String> = Vec::new();
    let mut i: usize = 0;
    while i < v.len()
        invariant
            i <= v.len(),
            r@.map_values(|x: String| x@) == crate::path::views(v@).take(i as int),
        decreases v.len() - i,
    {
        let ghost before = r@;
        r.push(string_of(&v[i]));
        assert(r@.map_values(|x: String| x@) =~= before.map_values(|x: String| x@).push(
            v@[i as int]@,
        ));
        assert(crate::path::views(v@).take(i + 1) =~= crate::path::views(v@).take(i as int).push(
            v@[i as int]@,
        ));
        i = i + 1;
    }
    assert(crate::path::views(v@).take(v.len() as int) =~= crate::path::views(v@));
    r
}

// ---------------------------------------------------------------------------
// Injected files manifest
// ---------------------------------------------------------------------------

/// The paths the manifest is built from: the configured context paths, the
/// trimmed active file (when not empty), and `README.md` when the injected
/// context mentions a readme or carries a `fs.read` tool result.
pub open spec fn manifest_inputs(
    active: Option<Seq<char>>,
    context: Seq<char>,
    configured: Seq<Seq<char>>,
) -> Seq<Seq<char>> {
    let a = match active {
        Some(p) => if trim(p).len() > 0 {
            seq![trim(p)]
        } else {
            Seq::<Seq<char>>::empty()
        },
        None => Seq::<Seq<char>>::empty(),
    };
    let l = lower(context);
    let r = if contains(l, "readme"@) || contains(l, "<<tool_result:fs.read>>"@) {
        seq!["README.md"@]
    } else {
        Seq::<Seq<char>>::empty()
    };
    configured + a + r
}

/// Texts in strictly increasing text order: sorted, with no repeats.
pub open spec fn strictly_sorted(s: Seq<Seq<char>>) -> bool {
    forall|i: int, j: int|
        0 <= i < j < s.len() ==> crate::order::text_le(#[trigger] s[i], #[trigger] s[j]) && s[i] != s[j]
}

/// Sorting texts orders them and keeps exactly the same texts.
proof fn lemma_sorted_texts(xs: Seq<Seq<char>>)
    ensures
        forall|i: int, j: int|
            0 <= i < j < sorted_texts(xs).len() ==> crate::order::text_le(
                #[trigger] sorted_texts(xs)[i],
                #[trigger] sorted_texts(xs)[j],
            ),
        forall|x: Seq<char>| #[trigger] sorted_texts(xs).contains(x) <==> xs.contains(x),
{
    let keys = text_keys(xs);
    crate::order::lemma_ranking(keys);
    let ord = ranking(keys);
    let st = sorted_texts(xs);
    assert forall|i: int, j: int| 0 <= i < j < st.len() implies crate::order::text_le(
        #[trigger] st[i],
        #[trigger] st[j],
    ) by {
        assert(crate::order::rank_order(keys)(ord[i], ord[j]));
        assert(keys[ord[i]] == (0nat, xs[ord[i]]));
        assert(keys[ord[j]] == (0nat, xs[ord[j]]));
        crate::order::lemma_text_le_reflexive(xs[ord[i]]);
    }
    assert forall|x: Seq<char>| #[trigger] st.contains(x) <==> xs.contains(x) by {
        if st.contains(x) {
            let i = choose|i: int| 0 <= i < st.len() && st[i] == x;
            assert(xs[ord[i]] == x);
        }
        if xs.contains(x) {
            let m = choose|m: int| 0 <= m < xs.len() && xs[m] == x;
            assert(ord.contains(m));
            let p = choose|p: int| 0 <= p < ord.len() && ord[p] == m;
            assert(st[p] == x);
        }
    }
}

/// Dropping consecutive repeats of a sorted sequence leaves it strictly
/// sorted with the same texts, ending with the same last text.
proof fn lemma_dedup_sorted(s: Seq<Seq<char>>)
    requires
        forall|i: int, j: int| 0 <= i < j < s.len() ==> crate::order::text_le(#[trigger] s[i], #[trigger] s[j]),
    ensures
        strictly_sorted(dedup(s)),
        forall|x: Seq<char>| #[trigger] dedup(s).contains(x) <==> s.contains(x),
        s.len() > 0 ==> dedup(s).len() > 0 && dedup(s).last() == s.last(),
    decreases s.len(),
{
    if s.len() > 0 {
        let p = s.drop_last();
        assert forall|i: int, j: int| 0 <= i < j < p.len() implies crate::order::text_le(#[trigger] p[i], #[trigger] p[j]) by {
            assert(p[i] == s[i] && p[j] == s[j]);
        }
        lemma_dedup_sorted(p);
        let d = dedup(p);
        let c = s.last();
        assert forall|x: Seq<char>| p.contains(x) || x == c <==> #[trigger] s.contains(x) by {
            if s.contains(x) {
                let k = choose|k: int| 0 <= k < s.len() && s[k] == x;
                if k < s.len() - 1 {
                    assert(p[k] == x);
                }
            }
            if p.contains(x) {
                let k = choose|k: int| 0 <= k < p.len() && p[k] == x;
                assert(s[k] == x);
            }
            if x == c {
                assert(s[s.len() - 1] == x);
            }
        }
        if d.len() > 0 && d.last() == c {
            assert(d.contains(d.last())) by {
                assert(d[d.len() - 1] == d.last());
            }
        } else {
            let r = d.push(c);
            assert forall|x: Seq<char>| #[trigger] r.contains(x) <==> d.contains(x) || x == c by {
                if r.contains(x) {
                    let k = choose|k: int| 0 <= k < r.len() && r[k] == x;
                    if k < d.len() {
                        assert(d[k] == x);
                    }
                }
                if d.contains(x) {
                    let k = choose|k: int| 0 <= k < d.len() && d[k] == x;
                    assert(r[k] == x);
                }
                if x == c {
                    assert(r[d.len() as int] == c);
                }
            }
            if d.len() > 0 {
                // d.last() is p.last(), which sorts before c.
                assert(p.last() == s[s.len() - 2]);
                assert(crate::order::text_le(d.last(), c));
            }
            assert forall|i: int, j: int| 0 <= i < j < r.len() implies crate::order::text_le(
                #[trigger] r[i],
                #[trigger] r[j],
            ) && r[i] != r[j] by {
                if j < d.len() {
                    assert(r[i] == d[i] && r[j] == d[j]);
                } else {
                    assert(r[i] == d[i]);
                    assert(r[j] == c);
                    let dl = d.last();
                    if i < d.len() - 1 {
                        assert(d[d.len() - 1] == dl);
                        crate::order::lemma_text_le_transitive(d[i], dl, c);
                        if d[i] == c {
                            crate::order::lemma_text_le_antisymmetric(dl, c);
                        }
                    } else {
                        assert(d[i] == dl);
                    }
                }
            }
        }
    }
}

/// The injected-files manifest lists each input path once, in increasing
/// text order, and nothing else.
pub proof fn law_manifest_sorted_unique(active: Option<Seq<char>>, context: Seq<char>, configured: Seq<Seq<char>>)
    ensures
        ({
            let xs = manifest_inputs(active, context, configured);
            let r = dedup(sorted_texts(xs));
            &&& strictly_sorted(r)
            &&& forall|x: Seq<char>| #[trigger] r.contains(x) <==> xs.contains(x)
        }),
{
    let xs = manifest_inputs(active, context, configured);
    lemma_sorted_texts(xs);
    lemma_dedup_sorted(sorted_texts(xs));
}

/// Paths already embedded in daemon context, sorted and without repeats.
pub fn build_injected_files_manifest(
    active_file_path: Option<&str>,
    injected_context: &str,
    configured_paths: &Vec<String>,
) -> (r: Vec<String>)
    ensures
        r@.map_values(|x: String| x@) == dedup(
            sorted_texts(
                manifest_inputs(
                    match active_file_path {
                        Some(p) => Some(p@),
                        None => None,
                    },
                    injected_context@,
                    configured_paths@.map_values(|x: String| x@),
                ),
            ),
        ),
{
    let ghost conf = configured_paths@.map_values(|x: String| x@);
    let mut paths: Vec<Vec<char>> = Vec::new();
    let mut i: usize = 0;
    while i < configured_paths.len()
        invariant
            i <= configured_paths.len(),
            conf == configured_paths@.map_values(|x: String| x@),
            crate::path::views(paths@) == conf.take(i as int),
        decreases configured_paths.len() - i,
    {
        let ghost before = paths@;
        paths.push(chars_of(configured_paths[i].as_str()));
        assert(crate::path::views(paths@) =~= crate::path::views(before).push(
            configured_paths@[i as int]@,
        ));
        assert(conf.take(i + 1) =~= conf.take(i as int).push(configured_paths@[i as int]@));
        i = i + 1;
    }
    assert(conf.take(configured_paths.len() as int) =~= conf);
    let ghost after_conf = crate::path::views(paths@);
    let ghost a: Seq<Seq<char>> = match active_file_path {
        Some(p) => if trim(p@).len() > 0 {
            seq![trim(p@)]
        } else {
            Seq::<Seq<char>>::empty()
        },
        None => Seq::<Seq<char>>::empty(),
    };
    match active_file_path {
        Some(p) => {
            let t = trim_vec(&chars_of(p));
            if t.len() > 0 {
                let ghost before = paths@;
                paths.push(t);
                assert(crate::path::views(paths@) =~= crate::path::views(before).push(trim(p@)));
            }
        },
        None => {},
    }
    assert(crate::path::views(paths@) =~= conf + a);
    let l = lower_vec(&chars_of(injected_context));
    let ghost r_part: Seq<Seq<char>> = if contains(lower(injected_context@), "readme"@) || contains(
        lower(injected_context@),
        "<<tool_result:fs.read>>"@,
    ) {
        seq!["README.md"@]
    } else {
        Seq::<Seq<char>>::empty()
    };
    if contains_vec(&l, &chars_of("readme")) || contains_vec(
        &l,
        &chars_of("<<tool_result:fs.read>>"),
    ) {
        let ghost before = paths@;
        paths.push(chars_of("README.md"));
        assert(crate::path::views(paths@) =~= crate::path::views(before).push("README.md"@));
    }
    assert(crate::path::views(paths@) =~= conf + a + r_part);
    let sorted = sort_texts(&paths);
    let d = dedup_texts(&sorted);
    strings_from(&d)
}

// ---------------------------------------------------------------------------
// Lexical workspace index
// ---------------------------------------------------------------------------

#[derive(Debug, Clone, PartialEq, Eq)]
pub struct ContextChunk {
    pub source: String,
    pub text: String,
}

#[derive(Debug, Clone)]
struct WorkspaceDoc {
    source: String,
    text: String,
}

/// Workspace paths the index never holds (dependency and build trees, git data).
pub open spec fn is_ignored(path: Seq<char>) -> bool {
    let n = crate::text::replace_char(path, '\\', '/');
    contains(n, "/node_modules/"@) || contains(n, "/target/"@) || starts_with(n, "target/"@)
        || starts_with(n, "node_modules/"@) || starts_with(n, ".git/"@)
}

/// Whether the index leaves out `path`.
pub fn is_ignored_path(path: &str) -> (b: bool)
    ensures
        b == is_ignored(path@),
{
    let n = crate::text::replace_char_vec(&chars_of(path), '\\', '/');
    contains_vec(&n, &chars_of("/node_modules/")) || contains_vec(&n, &chars_of("/target/"))
        || crate::text::starts_with_vec(&n, &chars_of("target/"))
        || crate::text::starts_with_vec(&n, &chars_of("node_modules/"))
        || crate::text::starts_with_vec(&n, &chars_of(".git/"))
}

/// File kinds the workspace index reads.
pub open spec fn is_indexable(path: Seq<char>) -> bool {
    ends_with(path, ".rs"@) || ends_with(path, ".md"@) || ends_with(path, ".toml"@) || ends_with(
        path,
        ".proto"@,
    )
}

/// Whether the workspace index reads the file at `path` (by extension).
pub fn is_indexable_extension(path: &str) -> (b: bool)
    ensures
        b == is_indexable(path@),
{
    let p = chars_of(path);
    crate::text::ends_with_vec(&p, &chars_of(".rs")) || crate::text::ends_with_vec(
        &p,
        &chars_of(".md"),
    ) || crate::text::ends_with_vec(&p, &chars_of(".toml")) || crate::text::ends_with_vec(
        &p,
        &chars_of(".proto"),
    )
}

/// The documents the index keeps: a source and a text, both non-empty, at a
/// path that is not ignored; in the given order.
pub open spec fn admitted(docs: Seq<(Seq<char>, Seq<char>)>) -> Seq<(Seq<char>, Seq<char>)>
    decreases docs.len(),
{
    if docs.len() == 0 {
        docs
    } else {
        let rest = admitted(docs.drop_last());
        let d = docs.last();
        if d.0.len() > 0 && d.1.len() > 0 && !is_ignored(d.0) {
            rest.push(d)
        } else {
            rest
        }
    }
}

/// The texts of a list of (source, text) pairs.
pub open spec fn pairs_view(docs: Seq<(String, String)>) -> Seq<(Seq<char>, Seq<char>)> {
    docs.map_values(|p: (String, String)| (p.0@, p.1@))
}

/// The documents scoring above zero for the query terms `q`, with their
/// score, in index order.
pub open spec fn scored_docs(docs: Seq<(Seq<char>, Seq<char>)>, q: Seq<Seq<char>>) -> Seq<
    (nat, Seq<char>, Seq<char>),
>
    decreases docs.len(),
{
    if docs.len() == 0 {
        Seq::<(nat, Seq<char>, Seq<char>)>::empty()
    } else {
        let rest = scored_docs(docs.drop_last(), q);
        let d = docs.last();
        let sc = score(q, terms(d.1));
        if sc > 0 {
            rest.push((sc, d.0, d.1))
        } else {
            rest
        }
    }
}

/// The ranking keys of scored documents: score, then source.
pub open spec fn score_keys(s: Seq<(nat, Seq<char>, Seq<char>)>) -> Seq<(nat, Seq<char>)> {
    s.map_values(|e: (nat, Seq<char>, Seq<char>)| (e.0, e.1))
}

/// What `search` returns: the top `top_k` documents by score (descending),
/// then source (ascending), as (source, text).
pub open spec fn search_result(docs: Seq<(Seq<char>, Seq<char>)>, query: Seq<char>, top_k: nat) -> Seq<
    (Seq<char>, Seq<char>),
> {
    let q = terms(query);
    if q.len() == 0 || top_k == 0 {
        Seq::<(Seq<char>, Seq<char>)>::empty()
    } else {
        let s = scored_docs(docs, q);
        let n = if top_k < s.len() {
            top_k
        } else {
            s.len()
        };
        ranking(score_keys(s)).take(n as int).map_values(|k: int| (s[k].1, s[k].2))
    }
}

/// The (source, text) pairs of chunks.
pub open spec fn chunks_view(c: Seq<ContextChunk>) -> Seq<(Seq<char>, Seq<char>)> {
    c.map_values(|x: ContextChunk| (x.source@, x.text@))
}

#[derive(Debug, Clone)]
pub struct LexicalWorkspaceIndexer {
    docs: Vec<WorkspaceDoc>,
}

impl LexicalWorkspaceIndexer {
    /// The indexed documents as (source, text).
    pub closed spec fn docs_view(&self) -> Seq<(Seq<char>, Seq<char>)> {
        self.docs@.map_values(|d: WorkspaceDoc| (d.source@, d.text@))
    }

    /// An index of the given documents (empty or ignored ones left out).
    pub fn with_seed_docs(docs: Vec<(String, String)>) -> (r: Self)
        ensures
            r.docs_view() == admitted(pairs_view(docs@)),
    {
        let ghost pv = pairs_view(docs@);
        let mut out: Vec<WorkspaceDoc> = Vec::new();
        let mut i: usize = 0;
        while i < docs.len()
            invariant
                i <= docs.len(),
                pv == pairs_view(docs@),
                out@.map_values(|d: WorkspaceDoc| (d.source@, d.text@)) == admitted(
                    pv.take(i as int),
                ),
            decreases docs.len() - i,
        {
            assert(pv.take(i + 1).drop_last() =~= pv.take(i as int));
            assert(pv.take(i + 1).last() == (docs@[i as int].0@, docs@[i as int].1@));
            let source = &docs[i].0;
            let text = &docs[i].1;
            if chars_of(source.as_str()).len() > 0 && chars_of(text.as_str()).len() > 0
                && !is_ignored_path(source.as_str()) {
                let ghost before = out@;
                out.push(
                    WorkspaceDoc {
                        source: string_of(&chars_of(source.as_str())),
                        text: string_of(&chars_of(text.as_str())),
                    },
                );
                assert(out@.map_values(|d: WorkspaceDoc| (d.source@, d.text@)) =~= before.map_values(
                    |d: WorkspaceDoc| (d.source@, d.text@),
                ).push((source@, text@)));
            }
            i = i + 1;
        }
        assert(pv.take(docs.len() as int) =~= pv);
        LexicalWorkspaceIndexer { docs: out }
    }

    /// The built-in index used when the workspace offers nothing to read.
    pub fn default_seeded() -> (r: Self)
        ensures
            r.docs_view() == admitted(seed_docs()),
    {
        let mut docs: Vec<(String, String)> = Vec::new();
        docs.push(
            (
                String::from_str("src/runtime.rs"),
                String::from_str("daemon startup shutdown socket lifecycle and error handling"),
            ),
        );
        docs.push(
            (
                String::from_str("src/transport.rs"),
                String::from_str("unix domain socket grpc client connection retry timeout"),
            ),
        );
        docs.push(
            (
                String::from_str("src/service.rs"),
                String::from_str("stream inference chunks done terminal event status endpoint"),
            ),
        );
        docs.push(
            (
                String::from_str("tests/uds_e2e.rs"),
                String::from_str("integration tests startup race interruption stream reliability"),
            ),
        );
        docs.push(
            (
                String::from_str("docs/CI.md"),
                String::from_str("ci checks clippy fmt tests and merge safety"),
            ),
        );
        assert(pairs_view(docs@) =~= seed_docs());
        Self::with_seed_docs(docs)
    }

    /// An index of the documents collected from the workspace, or the
    /// built-in one when none were collected.
    pub fn from_workspace_root(collected: Vec<(String, String)>) -> (r: Self)
        ensures
            collected@.len() == 0 ==> r.docs_view() == admitted(seed_docs()),
            collected@.len() > 0 ==> r.docs_view() == admitted(pairs_view(collected@)),
    {
        if collected.len() == 0 {
            return Self::default_seeded();
        }
        Self::with_seed_docs(collected)
    }

    /// The index the configuration asks for: the built-in one for the
    /// `seeded` indexer, none without a workspace root, else the documents
    /// collected from the workspace.
    pub fn from_config(settings: &Settings, collected: Vec<(String, String)>) -> (r: Self)
        ensures
            lower(trim(settings.workspace_indexer_mode@)) == "seeded"@ ==> r.docs_view() == admitted(
                seed_docs(),
            ),
            lower(trim(settings.workspace_indexer_mode@)) != "seeded"@
                && settings.workspace_root is None ==> r.docs_view().len() == 0,
            lower(trim(settings.workspace_indexer_mode@)) != "seeded"@
                && settings.workspace_root is Some ==> r.docs_view() == (if collected@.len() == 0 {
                admitted(seed_docs())
            } else {
                admitted(pairs_view(collected@))
            }),
    {
        let mode = lower_vec(&trim_vec(&chars_of(settings.workspace_indexer_mode.as_str())));
        if crate::text::eq_vec(&mode, &chars_of("seeded")) {
            return Self::default_seeded();
        }
        if settings.workspace_root.is_none() {
            let r = LexicalWorkspaceIndexer { docs: Vec::new() };
            assert(r.docs_view() =~= Seq::<(Seq<char>, Seq<char>)>::empty());
            return r;
        }
        Self::from_workspace_root(collected)
    }

    /// The top `top_k` documents for `query`, by term overlap (descending)
    /// then source (ascending).
    pub fn search(&self, query: &str, top_k: usize) -> (r: Vec<ContextChunk>)
        ensures
            chunks_view(r@) == search_result(self.docs_view(), query@, top_k as nat),
    {
        let q = normalized_terms(query);
        if q.len() == 0 || top_k == 0 {
            let r: Vec<ContextChunk> = Vec::new();
            assert(chunks_view(r@) =~= Seq::<(Seq<char>, Seq<char>)>::empty());
            return r;
        }
        let ghost dv = self.docs_view();
        let ghost qv = crate::path::views(q@);
        let mut scored: Vec<(u64, Vec<char>, Vec<char>)> = Vec::new();
        let mut i: usize = 0;
        while i < self.docs.len()
            invariant
                i <= self.docs.len(),
                dv == self.docs_view(),
                qv == crate::path::views(q@),
                scored@.map_values(|e: (u64, Vec<char>, Vec<char>)| (e.0 as nat, e.1@, e.2@))
                    == scored_docs(dv.take(i as int), qv),
            decreases self.docs.len() - i,
        {
            assert(dv.take(i + 1).drop_last() =~= dv.take(i as int));
            assert(dv.take(i + 1).last() == (self.docs@[i as int].source@, self.docs@[i as int].text@));
            let d = normalized_terms(self.docs[i].text.as_str());
            let sc = score_terms(&q, &d);
            if sc > 0 {
                let ghost before = scored@;
                scored.push(
                    (sc, chars_of(self.docs[i].source.as_str()), chars_of(self.docs[i].text.as_str())),
                );
                assert(scored@.map_values(|e: (u64, Vec<char>, Vec<char>)| (e.0 as nat, e.1@, e.2@))
                    =~= before.map_values(
                    |e: (u64, Vec<char>, Vec<char>)| (e.0 as nat, e.1@, e.2@),
                ).push((sc as nat, self.docs@[i as int].source@, self.docs@[i as int].text@)));
            }
            i = i + 1;
        }
        assert(dv.take(self.docs.len() as int) =~= dv);
        let ghost sv = scored@.map_values(|e: (u64, Vec<char>, Vec<char>)| (e.0 as nat, e.1@, e.2@));
        let mut keys: Vec<(u64, Vec<char>)> = Vec::new();
        let mut j: usize = 0;
        while j < scored.len()
            invariant
                j <= scored.len(),
                sv == scored@.map_values(|e: (u64, Vec<char>, Vec<char>)| (e.0 as nat, e.1@, e.2@)),
                keys_view(keys@) == score_keys(sv).take(j as int),
            decreases scored.len() - j,
        {
            let ghost before = keys@;
            keys.push((scored[j].0, clone_chars(&scored[j].1)));
            assert(keys_view(keys@) =~= keys_view(before).push(
                (scored@[j as int].0 as nat, scored@[j as int].1@),
            ));
            assert(score_keys(sv).take(j + 1) =~= score_keys(sv).take(j as int).push(
                (scored@[j as int].0 as nat, scored@[j as int].1@),
            ));
            j = j + 1;
        }
        assert(score_keys(sv).take(scored.len() as int) =~= score_keys(sv));
        let order = rank(&keys);
        let ghost ord = order@.map_values(|x: usize| x as int);
        let n = if top_k < scored.len() {
            top_k
        } else {
            scored.len()
        };
        let mut r: Vec<ContextChunk> = Vec::new();
        let mut k: usize = 0;
        while k < n
            invariant
                k <= n <= order@.len(),
                order@.len() == scored@.len(),
                ord == order@.map_values(|x: usize| x as int),
                forall|m: int| 0 <= m < order@.len() ==> order@[m] < scored@.len(),
                sv == scored@.map_values(|e: (u64, Vec<char>, Vec<char>)| (e.0 as nat, e.1@, e.2@)),
                chunks_view(r@) == ord.take(k as int).map_values(|m: int| (sv[m].1, sv[m].2)),
            decreases n - k,
        {
            let e = &scored[order[k]];
            let ghost before = r@;
            r.push(ContextChunk { source: string_of(&e.1), text: string_of(&e.2) });
            assert(ord[k as int] == order@[k as int] as int);
            assert(sv[ord[k as int]] == (e.0 as nat, e.1@, e.2@));
            assert(chunks_view(r@) =~= chunks_view(before).push((sv[ord[k as int]].1, sv[ord[k as int]].2)));
            assert(ord.take(k + 1) =~= ord.take(k as int).push(ord[k as int]));
            assert(chunks_view(r@) =~= ord.take(k + 1).map_values(|m: int| (sv[m].1, sv[m].2)));
            k = k + 1;
        }
        r
    }
}

/// The documents of the built-in index.
pub open spec fn seed_docs() -> Seq<(Seq<char>, Seq<char>)> {
    seq![
        ("src/runtime.rs"@, "daemon startup shutdown socket lifecycle and error handling"@),
        ("src/transport.rs"@, "unix domain socket grpc client connection retry timeout"@),
        ("src/service.rs"@, "stream inference chunks done terminal event status endpoint"@),
        ("tests/uds_e2e.rs"@, "integration tests startup race interruption stream reliability"@),
        ("docs/CI.md"@, "ci checks clippy fmt tests and merge safety"@),
    ]
}


// ---------------------------------------------------------------------------
// Packing lines into a token budget
// ---------------------------------------------------------------------------

/// How many leading lines fit, in order, into `budget` tokens (stopping at
/// the first line that does not).
pub open spec fn fit_count(lines: Seq<Seq<char>>, budget: nat) -> nat
    decreases lines.len(),
{
    if lines.len() == 0 || tokens(lines[0]) > budget {
        0
    } else {
        1 + fit_count(lines.drop_first(), (budget - tokens(lines[0])) as nat)
    }
}

/// Total estimated tokens of some lines.
pub open spec fn tokens_sum(lines: Seq<Seq<char>>) -> nat
    decreases lines.len(),
{
    if lines.len() == 0 {
        0
    } else {
        tokens_sum(lines.drop_last()) + tokens(lines.last())
    }
}

/// The lines that fit joined by line feeds, their tokens, and whether any
/// line was left out.
pub open spec fn packed(lines: Seq<Seq<char>>, budget: nat) -> (Seq<char>, nat, bool) {
    let k = fit_count(lines, budget) as int;
    (crate::path::join_with(lines.take(k), seq!['\n']), tokens_sum(lines.take(k)), k < lines.len())
}

/// The packed lines are the longest leading run that fits the budget: their
/// tokens stay within it, and one more line would not.
pub proof fn law_packed_is_longest_fit(lines: Seq<Seq<char>>, budget: nat)
    ensures
        tokens_sum(lines.take(fit_count(lines, budget) as int)) <= budget,
        fit_count(lines, budget) < lines.len() ==> tokens_sum(
            lines.take(fit_count(lines, budget) as int + 1),
        ) > budget,
    decreases lines.len(),
{
    lemma_fit_count_bound(lines, budget);
    lemma_packed_tokens(lines, budget);
    let k = fit_count(lines, budget) as int;
    if lines.len() > 0 && k < lines.len() {
        if tokens(lines[0]) > budget {
            lemma_tokens_sum_prepend(lines.take(1));
            assert(lines.take(1).drop_first() =~= Seq::<Seq<char>>::empty());
        } else {
            let rest = lines.drop_first();
            let b2 = (budget - tokens(lines[0])) as nat;
            law_packed_is_longest_fit(rest, b2);
            lemma_tokens_sum_prepend(lines.take(k + 1));
            assert(lines.take(k + 1).drop_first() =~= rest.take(k));
        }
    }
}

/// Compression gives nothing for a zero budget or no chunks (truncated when
/// chunks were dropped); otherwise the longest run of best-ranked
/// `[source] text` lines that fits the budget, joined by line feeds, with the
/// tokens it spends and whether any line was left out.
pub proof fn law_compress_packs_longest_prefix(query: Seq<char>, chunks: Seq<(Seq<char>, Seq<char>)>, budget: nat)
    ensures
        budget == 0 || chunks.len() == 0 ==> compressed(query, chunks, budget) == (
            Seq::<char>::empty(),
            0nat,
            chunks.len() > 0,
        ),
        budget > 0 && chunks.len() > 0 ==> ({
            let lines = ranked_lines(query, chunks);
            let k = fit_count(lines, budget);
            &&& compressed(query, chunks, budget) == (
                crate::path::join_with(lines.take(k as int), seq!['\n']),
                tokens_sum(lines.take(k as int)),
                k < lines.len(),
            )
            &&& tokens_sum(lines.take(k as int)) <= budget
            &&& k < lines.len() ==> tokens_sum(lines.take(k as int + 1)) > budget
        }),
{
    if budget > 0 && chunks.len() > 0 {
        law_packed_is_longest_fit(ranked_lines(query, chunks), budget);
    }
}

/// The compressed context spends no more than its token budget, and when a
/// line was left out the next ranked line would not have fit.
pub proof fn law_compressed_within_budget(query: Seq<char>, chunks: Seq<(Seq<char>, Seq<char>)>, budget: nat)
    ensures
        compressed(query, chunks, budget).1 <= budget,
        budget > 0 && chunks.len() > 0 && compressed(query, chunks, budget).2 ==> ({
            let lines = ranked_lines(query, chunks);
            let k = fit_count(lines, budget);
            k < lines.len() && tokens_sum(lines.take(k as int + 1)) > budget
        }),
{
    if budget > 0 && chunks.len() > 0 {
        law_packed_is_longest_fit(ranked_lines(query, chunks), budget);
    }
}

proof fn lemma_fit_count_bound(lines: Seq<Seq<char>>, budget: nat)
    ensures
        fit_count(lines, budget) <= lines.len(),
    decreases lines.len(),
{
    if lines.len() > 0 && tokens(lines[0]) <= budget {
        lemma_fit_count_bound(lines.drop_first(), (budget - tokens(lines[0])) as nat);
    }
}

fn pack_lines(lines: &Vec<Vec<char>>, budget: usize) -> (r: (Vec<char>, usize, bool))
    ensures
        (r.0@, r.1 as nat, r.2) == packed(crate::path::views(lines@), budget as nat),
{
    let ghost l = crate::path::views(lines@);
    let mut out: Vec<char> = Vec::new();
    let mut used: usize = 0;
    let mut i: usize = 0;
    assert(l.skip(0) =~= l);
    while i < lines.len()
        invariant
            i <= lines.len(),
            l == crate::path::views(lines@),
            used <= budget,
            used == tokens_sum(l.take(i as int)),
            out@ == crate::path::join_with(l.take(i as int), seq!['\n']),
            fit_count(l, budget as nat) == i + fit_count(l.skip(i as int), (budget - used) as nat),
        decreases lines.len() - i,
    {
        let t = tokens_vec(&lines[i]);
        assert(l.skip(i as int)[0] == lines@[i as int]@);
        if t > budget - used {
            proof {
                lemma_fit_count_bound(l, budget as nat);
            }
            return (out, used, true);
        }
        assert(l.skip(i as int).drop_first() =~= l.skip(i + 1));
        assert(l.take(i + 1).drop_last() =~= l.take(i as int));
        assert(l.take(i + 1).last() == lines@[i as int]@);
        if i > 0 {
            out.push('\n');
        }
        append_vec(&mut out, &lines[i]);
        proof {
            if i == 0 {
                assert(l.take(1) =~= seq![lines@[0]@]);
                assert(out@ =~= crate::path::join_with(l.take(1), seq!['\n']));
            } else {
                assert(out@ =~= crate::path::join_with(l.take(i as int), seq!['\n']) + seq!['\n']
                    + lines@[i as int]@);
            }
        }
        used = used + t;
        i = i + 1;
    }
    assert(l.take(lines.len() as int) =~= l);
    assert(l.skip(lines.len() as int) =~= Seq::<Seq<char>>::empty());
    (out, used, false)
}

// ---------------------------------------------------------------------------
// Extractive compression
// ---------------------------------------------------------------------------

/// `[source] text`
pub open spec fn chunk_line(c: (Seq<char>, Seq<char>)) -> Seq<char> {
    "["@ + c.0 + "] "@ + c.1
}

/// The chunk lines in ranking order: term overlap with the query
/// (descending), then the line (ascending).
pub open spec fn ranked_lines(query: Seq<char>, chunks: Seq<(Seq<char>, Seq<char>)>) -> Seq<Seq<char>> {
    let q = terms(query);
    let lines = chunks.map_values(|c: (Seq<char>, Seq<char>)| chunk_line(c));
    let keys = lines.map_values(|l: Seq<char>| (score(q, terms(l)), l));
    ranking(keys).map_values(|k: int| lines[k])
}

/// What `compress` returns.
pub open spec fn compressed(query: Seq<char>, chunks: Seq<(Seq<char>, Seq<char>)>, budget: nat) -> (
    Seq<char>,
    nat,
    bool,
) {
    if budget == 0 || chunks.len() == 0 {
        (Seq::<char>::empty(), 0, chunks.len() > 0)
    } else {
        packed(ranked_lines(query, chunks), budget)
    }
}

fn chunk_line_vec(source: &str, text: &str) -> (r: Vec<char>)
    ensures
        r@ == chunk_line((source@, text@)),
{
    let mut r = chars_of("[");
    append_vec(&mut r, &chars_of(source));
    append_vec(&mut r, &chars_of("] "));
    append_vec(&mut r, &chars_of(text));
    r
}

#[derive(Debug, Clone)]
pub struct ExtractiveContextCompressor;

impl ExtractiveContextCompressor {
    /// Pack the chunks most relevant to `query` into `budget_tokens`, one
    /// `[source] text` line each, best first.
    pub fn compress(&self, query: &str, chunks: &Vec<ContextChunk>, budget_tokens: usize) -> (r: (
        String,
        usize,
        bool,
    ))
        ensures
            (r.0@, r.1 as nat, r.2) == compressed(query@, chunks_view(chunks@), budget_tokens as nat),
    {
        if budget_tokens == 0 || chunks.len() == 0 {
            return (String::new(), 0, chunks.len() > 0);
        }
        let q = normalized_terms(query);
        let ghost cv = chunks_view(chunks@);
        let ghost lines_spec = cv.map_values(|c: (Seq<char>, Seq<char>)| chunk_line(c));
        let ghost qv = terms(query@);
        let mut lines: Vec<Vec<char>> = Vec::new();
        let mut keys: Vec<(u64, Vec<char>)> = Vec::new();
        let mut i: usize = 0;
        while i < chunks.len()
            invariant
                i <= chunks.len(),
                cv == chunks_view(chunks@),
                lines_spec == cv.map_values(|c: (Seq<char>, Seq<char>)| chunk_line(c)),
                qv == crate::path::views(q@),
                crate::path::views(lines@) == lines_spec.take(i as int),
                keys_view(keys@) == lines_spec.take(i as int).map_values(
                    |l: Seq<char>| (score(qv, terms(l)), l),
                ),
            decreases chunks.len() - i,
        {
            let line = chunk_line_vec(chunks[i].source.as_str(), chunks[i].text.as_str());
            let line_str = string_of(&line);
            let sc = score_terms(&q, &normalized_terms(line_str.as_str()));
            let ghost lb = lines@;
            let ghost kb = keys@;
            lines.push(clone_chars(&line));
            keys.push((sc, line));
            assert(lines_spec[i as int] == chunk_line((chunks@[i as int].source@, chunks@[i as int].text@)));
            assert(lines_spec.take(i + 1) =~= lines_spec.take(i as int).push(lines_spec[i as int]));
            assert(crate::path::views(lines@) =~= crate::path::views(lb).push(lines_spec[i as int]));
            assert(keys_view(keys@) =~= keys_view(kb).push((sc as nat, lines_spec[i as int])));
            i = i + 1;
        }
        assert(lines_spec.take(chunks.len() as int) =~= lines_spec);
        let order = rank(&keys);
        let ghost ord = order@.map_values(|x: usize| x as int);
        let mut ordered: Vec<Vec<char>> = Vec::new();
        let mut j: usize = 0;
        while j < order.len()
            invariant
                j <= order.len(),
                order@.len() == lines@.len(),
                ord == order@.map_values(|x: usize| x as int),
                forall|m: int| 0 <= m < order@.len() ==> order@[m] < lines@.len(),
                crate::path::views(lines@) == lines_spec,
                crate::path::views(ordered@) == ord.take(j as int).map_values(
                    |k: int| lines_spec[k],
                ),
            decreases order.len() - j,
        {
            let ghost before = ordered@;
            ordered.push(clone_chars(&lines[order[j]]));
            assert(ord[j as int] == order@[j as int] as int);
            assert(crate::path::views(ordered@) =~= crate::path::views(before).push(
                lines_spec[ord[j as int]],
            ));
            assert(ord.take(j + 1) =~= ord.take(j as int).push(ord[j as int]));
            j = j + 1;
        }
        assert(ord.take(order.len() as int) =~= ord);
        let (out, used, truncated) = pack_lines(&ordered, budget_tokens);
        (string_of(&out), used, truncated)
    }
}

/// `[rel] snippet` lines for the readable paths (at most 4096 characters of
/// each file), packed into `budget` tokens.
pub open spec fn path_bundle(sources: Seq<(Seq<char>, Option<Seq<char>>)>, budget: nat) -> (
    Seq<char>,
    nat,
    bool,
) {
    packed(bundle_lines(sources), budget)
}

pub const MAX_BYTES_PER_INJECTED_PATH: usize = 4096;

/// One `[rel] snippet` line per readable source, in order.
pub open spec fn bundle_lines(sources: Seq<(Seq<char>, Option<Seq<char>>)>) -> Seq<Seq<char>>
    decreases sources.len(),
{
    if sources.len() == 0 {
        Seq::<Seq<char>>::empty()
    } else {
        let rest = bundle_lines(sources.drop_last());
        match sources.last().1 {
            Some(text) => rest.push(
                chunk_line(
                    (
                        sources.last().0,
                        text.take(
                            if text.len() < MAX_BYTES_PER_INJECTED_PATH {
                                text.len() as int
                            } else {
                                MAX_BYTES_PER_INJECTED_PATH as int
                            },
                        ),
                    ),
                ),
            ),
            None => rest,
        }
    }
}

/// The texts of loaded sources: each workspace-relative path with its text,
/// `None` when it could not be read.
pub open spec fn sources_view(s: Seq<(String, Option<String>)>) -> Seq<(Seq<char>, Option<Seq<char>>)> {
    s.map_values(
        |p: (String, Option<String>)|
            (
                p.0@,
                match p.1 {
                    Some(t) => Some(t@),
                    None => None,
                },
            ),
    )
}

/// Pack loaded files into `budget_tokens`, one `[rel] snippet` line each, in
/// order, skipping those that could not be read.
pub fn load_path_bundle(sources: &Vec<(String, Option<String>)>, budget_tokens: usize) -> (r: (
    String,
    usize,
    bool,
))
    ensures
        (r.0@, r.1 as nat, r.2) == path_bundle(sources_view(sources@), budget_tokens as nat),
{
    let ghost sv = sources_view(sources@);
    let mut lines: Vec<Vec<char>> = Vec::new();
    let mut i: usize = 0;
    while i < sources.len()
        invariant
            i <= sources.len(),
            sv == sources_view(sources@),
            crate::path::views(lines@) == bundle_lines(sv.take(i as int)),
        decreases sources.len() - i,
    {
        assert(sv.take(i + 1).drop_last() =~= sv.take(i as int));
        assert(sv.take(i + 1).last() == sv[i as int]);
        match &sources[i].1 {
            Some(text) => {
                let t = chars_of(text.as_str());
                let n = if t.len() < MAX_BYTES_PER_INJECTED_PATH {
                    t.len()
                } else {
                    MAX_BYTES_PER_INJECTED_PATH
                };
                let snippet = crate::text::slice_vec(&t, 0, n);
                let line = chunk_line_vec(sources[i].0.as_str(), string_of(&snippet).as_str());
                let ghost before = lines@;
                lines.push(line);
                assert(snippet@ =~= text@.take(n as int));
                assert(crate::path::views(lines@) =~= crate::path::views(before).push(line@));
            },
            None => {},
        }
        i = i + 1;
    }
    assert(sv.take(sources.len() as int) =~= sv);
    let (out, used, truncated) = pack_lines(&lines, budget_tokens);
    (string_of(&out), used, truncated)
}


// ---------------------------------------------------------------------------
// Exact-prefix cache
// ---------------------------------------------------------------------------

#[derive(Debug, Clone)]
struct CacheEntry {
    key: String,
    value: String,
    inserted_at_ms: u64,
}

/// Entry `(key, value, inserted_at_ms)` views.
pub open spec fn entry_view(e: (Seq<char>, Seq<char>, u64)) -> (Seq<char>, Seq<char>, u64) {
    e
}

/// Milliseconds from `then` to `now` (zero when `now` is earlier).
pub open spec fn age(now: u64, then: u64) -> nat {
    if now >= then {
        (now - then) as nat
    } else {
        0
    }
}

/// The entries still fresh at `now`.
pub open spec fn live_entries(es: Seq<(Seq<char>, Seq<char>, u64)>, now: u64, ttl: u64) -> Seq<
    (Seq<char>, Seq<char>, u64),
>
    decreases es.len(),
{
    if es.len() == 0 {
        es
    } else {
        let rest = live_entries(es.drop_last(), now, ttl);
        if age(now, es.last().2) <= ttl {
            rest.push(es.last())
        } else {
            rest
        }
    }
}

/// The entries for keys other than `key`.
pub open spec fn without_key(es: Seq<(Seq<char>, Seq<char>, u64)>, key: Seq<char>) -> Seq<
    (Seq<char>, Seq<char>, u64),
>
    decreases es.len(),
{
    if es.len() == 0 {
        es
    } else {
        let rest = without_key(es.drop_last(), key);
        if es.last().0 != key {
            rest.push(es.last())
        } else {
            rest
        }
    }
}

/// The value stored under `key` (the latest entry for it).
pub open spec fn cache_lookup(es: Seq<(Seq<char>, Seq<char>, u64)>, key: Seq<char>) -> Option<
    Seq<char>,
>
    decreases es.len(),
{
    if es.len() == 0 {
        None
    } else if es.last().0 == key {
        Some(es.last().1)
    } else {
        cache_lookup(es.drop_last(), key)
    }
}

/// A cache from exact prompt prefixes to assembled context, whose entries
/// expire `ttl_ms` milliseconds after they were stored.
#[derive(Debug, Clone)]
pub struct ExactPrefixCache {
    entries: Vec<CacheEntry>,
    ttl_ms: u64,
}

impl ExactPrefixCache {
    /// The stored entries as (key, value, stored at), oldest first.
    pub closed spec fn entries_view(&self) -> Seq<(Seq<char>, Seq<char>, u64)> {
        self.entries@.map_values(|e: CacheEntry| (e.key@, e.value@, e.inserted_at_ms))
    }

    /// The time to live of an entry, in milliseconds.
    pub closed spec fn ttl(&self) -> u64 {
        self.ttl_ms
    }

    /// An empty cache.
    pub fn new(ttl_ms: u64) -> (c: Self)
        ensures
            c.entries_view().len() == 0,
            c.ttl() == ttl_ms,
    {
        let c = ExactPrefixCache { entries: Vec::new(), ttl_ms };
        assert(c.entries_view() =~= Seq::<(Seq<char>, Seq<char>, u64)>::empty());
        c
    }

    /// Drop the expired entries, then look `key` up.
    pub fn get(&mut self, key: &str, now_ms: u64) -> (r: Option<String>)
        ensures
            final(self).ttl() == old(self).ttl(),
            final(self).entries_view() == live_entries(
                old(self).entries_view(),
                now_ms,
                old(self).ttl(),
            ),
            match cache_lookup(final(self).entries_view(), key@) {
                Some(v) => r matches Some(s) && s@ == v,
                None => r is None,
            },
    {
        let ghost old_view = self.entries_view();
        let mut kept: Vec<CacheEntry> = Vec::new();
        let mut i: usize = 0;
        while i < self.entries.len()
            invariant
                i <= self.entries.len(),
                old_view == self.entries_view(),
                old_view == old(self).entries_view(),
                self.ttl_ms == old(self).ttl_ms,
                kept@.map_values(|e: CacheEntry| (e.key@, e.value@, e.inserted_at_ms))
                    == live_entries(old_view.take(i as int), now_ms, self.ttl_ms),
            decreases self.entries.len() - i,
        {
            assert(old_view.take(i + 1).drop_last() =~= old_view.take(i as int));
            let e = &self.entries[i];
            assert(old_view.take(i + 1).last() == (e.key@, e.value@, e.inserted_at_ms));
            let a = if now_ms >= e.inserted_at_ms {
                now_ms - e.inserted_at_ms
            } else {
                0
            };
            if a <= self.ttl_ms {
                let ghost before = kept@;
                kept.push(
                    CacheEntry {
                        key: string_of(&chars_of(e.key.as_str())),
                        value: string_of(&chars_of(e.value.as_str())),
                        inserted_at_ms: e.inserted_at_ms,
                    },
                );
                assert(kept@.map_values(|e: CacheEntry| (e.key@, e.value@, e.inserted_at_ms))
                    =~= before.map_values(|e: CacheEntry| (e.key@, e.value@, e.inserted_at_ms)).push(
                    (e.key@, e.value@, e.inserted_at_ms),
                ));
            }
            i = i + 1;
        }
        assert(old_view.take(self.entries.len() as int) =~= old_view);
        self.entries = kept;
        let ghost v = self.entries_view();
        let k = chars_of(key);
        let mut j: usize = self.entries.len();
        assert(v.take(j as int) =~= v);
        while j > 0
            invariant
                j <= self.entries.len(),
                v == self.entries_view(),
                v == live_entries(old(self).entries_view(), now_ms, old(self).ttl()),
                self.ttl_ms == old(self).ttl_ms,
                cache_lookup(v, key@) == cache_lookup(v.take(j as int), key@),
                k@ == key@,
            decreases j,
        {
            assert(v.take(j as int).drop_last() =~= v.take(j - 1));
            assert(v.take(j as int).last() == v[j - 1]);
            if crate::text::eq_vec(&chars_of(self.entries[j - 1].key.as_str()), &k) {
                return Some(string_of(&chars_of(self.entries[j - 1].value.as_str())));
            }
            j = j - 1;
        }
        None
    }

    /// Store `value` under `key` at `now_ms`, replacing an earlier entry for it.
    pub fn put(&mut self, key: String, value: String, now_ms: u64)
        ensures
            final(self).ttl() == old(self).ttl(),
            final(self).entries_view() == without_key(old(self).entries_view(), key@).push(
                (key@, value@, now_ms),
            ),
    {
        let ghost old_view = self.entries_view();
        let k = chars_of(key.as_str());
        let mut kept: Vec<CacheEntry> = Vec::new();
        let mut i: usize = 0;
        while i < self.entries.len()
            invariant
                i <= self.entries.len(),
                old_view == self.entries_view(),
                k@ == key@,
                kept@.map_values(|e: CacheEntry| (e.key@, e.value@, e.inserted_at_ms))
                    == without_key(old_view.take(i as int), key@),
            decreases self.entries.len() - i,
        {
            assert(old_view.take(i + 1).drop_last() =~= old_view.take(i as int));
            let e = &self.entries[i];
            assert(old_view.take(i + 1).last() == (e.key@, e.value@, e.inserted_at_ms));
            if !crate::text::eq_vec(&chars_of(e.key.as_str()), &k) {
                let ghost before = kept@;
                kept.push(
                    CacheEntry {
                        key: string_of(&chars_of(e.key.as_str())),
                        value: string_of(&chars_of(e.value.as_str())),
                        inserted_at_ms: e.inserted_at_ms,
                    },
                );
                assert(kept@.map_values(|e: CacheEntry| (e.key@, e.value@, e.inserted_at_ms))
                    =~= before.map_values(|e: CacheEntry| (e.key@, e.value@, e.inserted_at_ms)).push(
                    (e.key@, e.value@, e.inserted_at_ms),
                ));
            }
            i = i + 1;
        }
        assert(old_view.take(self.entries.len() as int) =~= old_view);
        let ghost before = kept@;
        kept.push(CacheEntry { key, value, inserted_at_ms: now_ms });
        assert(kept@.map_values(|e: CacheEntry| (e.key@, e.value@, e.inserted_at_ms))
            =~= before.map_values(|e: CacheEntry| (e.key@, e.value@, e.inserted_at_ms)).push(
            (key@, value@, now_ms),
        ));
        self.entries = kept;
    }
}

/// A value stored in the prefix cache is what a lookup of its key gives back
/// as long as the entry has not expired.
pub proof fn law_prefix_cache_read_after_write(
    es: Seq<(Seq<char>, Seq<char>, u64)>,
    key: Seq<char>,
    value: Seq<char>,
    stored_at: u64,
    now: u64,
    ttl: u64,
)
    requires
        age(now, stored_at) <= ttl,
    ensures
        cache_lookup(live_entries(without_key(es, key).push((key, value, stored_at)), now, ttl), key)
            == Some(value),
{
    let s = without_key(es, key).push((key, value, stored_at));
    assert(s.drop_last() =~= without_key(es, key));
}

/// Of two writes to the same key, a lookup gives the later value while it is
/// live; a write to another key in between does not change that.
pub proof fn law_prefix_cache_last_write_wins(
    es: Seq<(Seq<char>, Seq<char>, u64)>,
    key: Seq<char>,
    first: Seq<char>,
    first_at: u64,
    other: Seq<char>,
    other_value: Seq<char>,
    other_at: u64,
    second: Seq<char>,
    second_at: u64,
    now: u64,
    ttl: u64,
)
    requires
        other != key,
        age(now, second_at) <= ttl,
    ensures
        ({
            let after_first = without_key(es, key).push((key, first, first_at));
            let after_other = without_key(after_first, other).push((other, other_value, other_at));
            let after_second = without_key(after_other, key).push((key, second, second_at));
            cache_lookup(live_entries(after_second, now, ttl), key) == Some(second)
        }),
{
    let after_first = without_key(es, key).push((key, first, first_at));
    let after_other = without_key(after_first, other).push((other, other_value, other_at));
    law_prefix_cache_read_after_write(after_other, key, second, second_at, now, ttl);
}

/// A lookup never answers from an entry older than the time to live.
pub proof fn law_prefix_cache_never_serves_stale(
    es: Seq<(Seq<char>, Seq<char>, u64)>,
    key: Seq<char>,
    now: u64,
    ttl: u64,
)
    ensures
        forall|i: int|
            0 <= i < live_entries(es, now, ttl).len() ==> age(
                now,
                #[trigger] live_entries(es, now, ttl)[i].2,
            ) <= ttl,
    decreases es.len(),
{
    if es.len() > 0 {
        law_prefix_cache_never_serves_stale(es.drop_last(), key, now, ttl);
        let rest = live_entries(es.drop_last(), now, ttl);
        assert forall|i: int| 0 <= i < live_entries(es, now, ttl).len() implies age(
            now,
            #[trigger] live_entries(es, now, ttl)[i].2,
        ) <= ttl by {
            if i < rest.len() {
                assert(live_entries(es, now, ttl)[i] == rest[i]);
            }
        }
    }
}

// ---------------------------------------------------------------------------
// Prompt helpers
// ---------------------------------------------------------------------------

/// The cache key of a prompt: its first 96 characters, scoped by the trimmed
/// harness session id when there is one.
pub open spec fn prefix_key(session: Seq<char>, prompt: Seq<char>) -> Seq<char> {
    let prefix = prompt.take(if prompt.len() < 96 {
        prompt.len() as int
    } else {
        96
    });
    if trim(session).len() == 0 {
        prefix
    } else {
        trim(session) + seq![':'] + prefix
    }
}

/// Cache key: the stable prompt prefix, scoped per harness session.
pub fn stable_prefix_key(harness_session_id: &str, prompt: &str) -> (s: String)
    ensures
        s@ == prefix_key(harness_session_id@, prompt@),
{
    let p = chars_of(prompt);
    let n = if p.len() < 96 {
        p.len()
    } else {
        96
    };
    let prefix = crate::text::slice_vec(&p, 0, n);
    assert(prefix@ =~= prompt@.take(n as int));
    let t = trim_vec(&chars_of(harness_session_id));
    if t.len() == 0 {
        string_of(&prefix)
    } else {
        let mut r = t;
        r.push(':');
        append_vec(&mut r, &prefix);
        string_of(&r)
    }
}

/// The prompt cut to four characters per allowed token.
pub open spec fn budgeted_prompt(prompt: Seq<char>, max_prompt_tokens: nat) -> Seq<char> {
    let limit = max_prompt_tokens * 4;
    if prompt.len() <= limit {
        prompt
    } else {
        prompt.take(limit as int)
    }
}

/// A budgeted prompt keeps at most four characters per token, and it is the
/// start of the prompt.
pub proof fn law_prompt_budget_bounds(prompt: Seq<char>, max_prompt_tokens: nat)
    ensures
        budgeted_prompt(prompt, max_prompt_tokens).len() <= max_prompt_tokens * 4,
        prompt.take(budgeted_prompt(prompt, max_prompt_tokens).len() as int) == budgeted_prompt(
            prompt,
            max_prompt_tokens,
        ),
{
    let b = budgeted_prompt(prompt, max_prompt_tokens);
    assert(prompt.take(b.len() as int) =~= b);
}

/// Bound `prompt` to `max_prompt_tokens` (four characters per token).
pub fn apply_prompt_budget(prompt: &str, max_prompt_tokens: usize) -> (s: String)
    ensures
        s@ == budgeted_prompt(prompt@, max_prompt_tokens as nat),
{
    let p = chars_of(prompt);
    let n = p.len();
    if max_prompt_tokens > usize::MAX / 4 || n <= max_prompt_tokens * 4 {
        string_of(&p)
    } else {
        string_of(&crate::text::slice_vec(&p, 0, max_prompt_tokens * 4))
    }
}

/// The prompt followed by a `[context]` section when there is context.
pub open spec fn prompt_with_context(prompt: Seq<char>, context: Seq<char>) -> Seq<char> {
    if context.len() == 0 {
        prompt
    } else {
        prompt + "\n\n[context]\n"@ + context
    }
}

/// Append the context to the prompt under a `[context]` heading.
pub fn join_prompt_and_context(prompt: &str, context: &str) -> (s: String)
    ensures
        s@ == prompt_with_context(prompt@, context@),
{
    let c = chars_of(context);
    if c.len() == 0 {
        return String::from_str(prompt);
    }
    let mut r = chars_of(prompt);
    append_vec(&mut r, &chars_of("\n\n[context]\n"));
    append_vec(&mut r, &c);
    string_of(&r)
}

/// The active file and a candidate source name the same file (either path
/// ends with the other, `\` read as `/`).
pub open spec fn names_active_file(source: Seq<char>, active: Seq<char>) -> bool {
    let a = crate::text::replace_char(active, '\\', '/');
    let s = crate::text::replace_char(source, '\\', '/');
    ends_with(a, s) || ends_with(s, a)
}

/// Index of the first chunk naming the active file.
pub open spec fn first_active(c: Seq<(Seq<char>, Seq<char>)>, active: Seq<char>) -> Option<int>
    decreases c.len(),
{
    if c.len() == 0 {
        None
    } else {
        match first_active(c.drop_last(), active) {
            Some(i) => Some(i),
            None => if names_active_file(c.last().0, active) {
                Some(c.len() - 1)
            } else {
                None
            },
        }
    }
}

/// The chunks with the first one naming the active file moved to the front.
pub open spec fn boosted(c: Seq<(Seq<char>, Seq<char>)>, active: Seq<char>) -> Seq<
    (Seq<char>, Seq<char>),
> {
    match first_active(c, active) {
        Some(i) => if i > 0 {
            seq![c[i]] + c.remove(i)
        } else {
            c
        },
        None => c,
    }
}

proof fn lemma_first_active_prefix(c: Seq<(Seq<char>, Seq<char>)>, active: Seq<char>, k: int)
    requires
        0 <= k <= c.len(),
        first_active(c.take(k), active) is Some,
    ensures
        first_active(c, active) == first_active(c.take(k), active),
    decreases c.len(),
{
    if k < c.len() {
        assert(c.drop_last().take(k) =~= c.take(k));
        lemma_first_active_prefix(c.drop_last(), active, k);
    } else {
        assert(c.take(k) =~= c);
    }
}

proof fn lemma_first_active_bound(c: Seq<(Seq<char>, Seq<char>)>, active: Seq<char>)
    ensures
        first_active(c, active) matches Some(i) ==> 0 <= i < c.len(),
    decreases c.len(),
{
    if c.len() > 0 {
        lemma_first_active_bound(c.drop_last(), active);
    }
}

/// Move the first candidate naming the active file to the front.
pub fn boost_active_file_candidate(candidates: &mut Vec<ContextChunk>, active_path: &str)
    ensures
        chunks_view(final(candidates)@) == boosted(chunks_view(old(candidates)@), active_path@),
{
    let ghost cv = chunks_view(candidates@);
    let a = crate::text::replace_char_vec(&chars_of(active_path), '\\', '/');
    let mut i: usize = 0;
    while i < candidates.len()
        invariant
            i <= candidates.len(),
            cv == chunks_view(candidates@),
            candidates@ == old(candidates)@,
            a@ == crate::text::replace_char(active_path@, '\\', '/'),
            first_active(cv.take(i as int), active_path@) is None,
        decreases candidates.len() - i,
    {
        assert(cv.take(i + 1).drop_last() =~= cv.take(i as int));
        assert(cv.take(i + 1).last() == cv[i as int]);
        let s = crate::text::replace_char_vec(
            &chars_of(candidates[i].source.as_str()),
            '\\',
            '/',
        );
        if crate::text::ends_with_vec(&a, &s) || crate::text::ends_with_vec(&s, &a) {
            proof {
                lemma_first_active_prefix(cv, active_path@, i + 1);
            }
            if i > 0 {
                let chunk = candidates.remove(i);
                candidates.insert(0, chunk);
                assert(chunks_view(candidates@) =~= seq![cv[i as int]] + cv.remove(i as int));
            }
            return;
        }
        i = i + 1;
    }
    assert(cv.take(candidates.len() as int) =~= cv);
}


proof fn lemma_packed_tokens(lines: Seq<Seq<char>>, budget: nat)
    ensures
        tokens_sum(lines.take(fit_count(lines, budget) as int)) <= budget,
    decreases lines.len(),
{
    if lines.len() > 0 && tokens(lines[0]) <= budget {
        let rest = lines.drop_first();
        let b2 = (budget - tokens(lines[0])) as nat;
        lemma_packed_tokens(rest, b2);
        lemma_fit_count_bound(rest, b2);
        let k = fit_count(rest, b2) as int;
        lemma_tokens_sum_prepend(lines.take(k + 1));
        assert(lines.take(k + 1).drop_first() =~= rest.take(k));
    } else {
        assert(lines.take(0) =~= Seq::<Seq<char>>::empty());
    }
}

proof fn lemma_tokens_sum_prepend(s: Seq<Seq<char>>)
    requires
        s.len() > 0,
    ensures
        tokens_sum(s) == tokens(s[0]) + tokens_sum(s.drop_first()),
    decreases s.len(),
{
    if s.len() > 1 {
        lemma_tokens_sum_prepend(s.drop_last());
        assert(s.drop_last().drop_first() =~= s.drop_first().drop_last());
    } else {
        assert(s.drop_first() =~= Seq::<Seq<char>>::empty());
        assert(s.drop_last() =~= Seq::<Seq<char>>::empty());
    }
}

// ---------------------------------------------------------------------------
// The pipeline
// ---------------------------------------------------------------------------

/// A configured context path as loaded by the caller.
#[derive(Debug, Clone)]
pub struct ContextPathSource {
    pub rel: String,
    /// The file's text, `None` when it could not be read.
    pub text: Option<String>,
    /// Whether the path names a regular file.
    pub is_file: bool,
}

/// What the pipeline reads from the workspace, loaded beforehand by the
/// caller; `prepare` uses what its decisions call for.
#[derive(Debug)]
pub struct ContextSources {
    /// The configured context paths (none without a workspace root).
    pub context_paths: Vec<ContextPathSource>,
    /// The share of the context budget for context paths (30%, rounded down).
    pub context_paths_budget: usize,
    /// How many documents the advisory bundle names.
    pub advisory_paths_count: usize,
    /// The advisory bundle documents with their text (none without a
    /// workspace root).
    pub advisory: Vec<(String, Option<String>)>,
    /// Knowledge context, used when knowledge retrieval is enabled.
    pub knowledge: crate::knowledge::KnowledgeResult,
}

pub open spec fn context_paths_view(s: Seq<ContextPathSource>) -> Seq<(Seq<char>, Option<Seq<char>>)> {
    s.map_values(
        |c: ContextPathSource|
            (
                c.rel@,
                match c.text {
                    Some(t) => Some(t@),
                    None => None,
                },
            ),
    )
}

/// The context paths that name regular files, in order.
pub open spec fn file_paths(s: Seq<ContextPathSource>) -> Seq<Seq<char>>
    decreases s.len(),
{
    if s.len() == 0 {
        Seq::<Seq<char>>::empty()
    } else if s.last().is_file {
        file_paths(s.drop_last()).push(s.last().rel@)
    } else {
        file_paths(s.drop_last())
    }
}

/// Context-path text, its tokens, and the injected file paths.
pub open spec fn paths_stage(src: ContextSources) -> (Seq<char>, nat, Seq<Seq<char>>) {
    if src.context_paths@.len() == 0 {
        (Seq::<char>::empty(), 0, Seq::<Seq<char>>::empty())
    } else {
        let b = path_bundle(context_paths_view(src.context_paths@), src.context_paths_budget as nat);
        (b.0, b.1, file_paths(src.context_paths@))
    }
}

/// The prompt after budgeting and, when retrieval runs with context
/// attached, without the editor's file-selection trailer; and whether that
/// trailer was removed.
pub open spec fn prompt_stage(
    request: ContextRequest,
    caps: AdapterCapabilities,
    budget: TokenBudget,
    advisory_enabled: bool,
) -> (Seq<char>, bool) {
    let bp = if caps.truncate_prompt {
        budgeted_prompt(request.prompt@, budget.max_prompt_tokens as nat)
    } else {
        request.prompt@
    };
    if caps.attach_context && !skip_retrieval(
        request.prompt@,
        request.retrieve_off,
        request.behavior_snapshot,
        advisory_enabled,
    ) {
        crate::turn_correlation::stripped_prompt(bp)
    } else {
        (bp, false)
    }
}

/// Which retrieval runs for the (budgeted) prompt `p`.
pub open spec fn retrieval_stage(request: ContextRequest, p: Seq<char>, advisory_enabled: bool) -> RetrievalDecision {
    if skip_retrieval(
        request.prompt@,
        request.retrieve_off,
        request.behavior_snapshot,
        advisory_enabled,
    ) {
        RetrievalDecision::Skipped
    } else if advisory_enabled && crate::advisory_intent::is_advisory(p) && p.len()
        <= RETRIEVAL_SKIP_MAX_PROMPT_CHARS {
        RetrievalDecision::AdvisoryBundle
    } else {
        RetrievalDecision::Ran
    }
}

/// The retrieval query: the prompt and the diagnostics hint.
pub open spec fn query_of(request: ContextRequest, p: Seq<char>) -> Seq<char> {
    match request.diagnostics_hint {
        Some(d) => p + seq![' '] + d@,
        None => p,
    }
}

/// The retrieval candidates: the top five index hits, the active file first.
pub open spec fn candidates_of(docs: Seq<(Seq<char>, Seq<char>)>, request: ContextRequest, query: Seq<char>) -> Seq<
    (Seq<char>, Seq<char>),
> {
    let c = search_result(docs, query, 5);
    match request.active_file_path {
        Some(a) => boosted(c, a@),
        None => c,
    }
}

/// Retrieved context, selected tokens (with the context paths'), whether it
/// was truncated, the candidate count and the compression strategy.
pub open spec fn retrieved_stage(
    docs: Seq<(Seq<char>, Seq<char>)>,
    request: ContextRequest,
    p: Seq<char>,
    advisory_enabled: bool,
    src: ContextSources,
    remaining: nat,
    ptext: Seq<char>,
    ptokens: nat,
) -> (Seq<char>, nat, bool, nat, Seq<char>) {
    match retrieval_stage(request, p, advisory_enabled) {
        RetrievalDecision::AdvisoryBundle => {
            let b = path_bundle(sources_view(src.advisory@), remaining);
            (b.0, ptokens + b.1, b.2, src.advisory_paths_count as nat, "advisory_bundle"@)
        },
        RetrievalDecision::Ran => {
            let c = candidates_of(docs, request, query_of(request, p));
            let k = compressed(query_of(request, p), c, remaining);
            (
                k.0,
                ptokens + k.1,
                k.2,
                c.len(),
                if c.len() == 0 {
                    "none"@
                } else {
                    "extractive_query"@
                },
            )
        },
        RetrievalDecision::Skipped => (
            Seq::<char>::empty(),
            ptokens,
            false,
            0,
            if ptext.len() == 0 {
                "none"@
            } else {
                "context_paths"@
            },
        ),
    }
}

/// Two context parts, the second after a line feed; an empty part adds nothing.
pub open spec fn joined_context(first: Seq<char>, second: Seq<char>) -> Seq<char> {
    if second.len() == 0 {
        first
    } else if first.len() == 0 {
        second
    } else {
        first + seq!['\n'] + second
    }
}

fn join_context_vec(first: &Vec<char>, second: &Vec<char>) -> (r: Vec<char>)
    ensures
        r@ == joined_context(first@, second@),
{
    if second.len() == 0 {
        clone_chars(first)
    } else if first.len() == 0 {
        clone_chars(second)
    } else {
        let mut r = clone_chars(first);
        r.push('\n');
        append_vec(&mut r, second);
        r
    }
}

/// The metrics and result fields when no context is assembled.
pub open spec fn bare_result(
    r: PipelineResult,
    p: Seq<char>,
    c1: bool,
    status: CacheStatus,
    snapshot: BehaviorSnapshot,
) -> bool {
    &&& r.effective_prompt@ == p
    &&& r.injected_context@.len() == 0
    &&& r.injected_paths@.len() == 0
    &&& r.c1_stripped == c1
    &&& r.metrics.prompt_tokens == tokens(p)
    &&& r.metrics.selected_context_tokens == 0
    &&& r.metrics.context_candidates == 0
    &&& r.metrics.context_selected == 0
    &&& !r.metrics.context_truncated
    &&& r.metrics.cache_status == status
    &&& decision_of(r.metrics.behavior_decision, snapshot)
    &&& r.metrics.retrieval == RetrievalDecision::Skipped
    &&& r.metrics.compression_strategy@ == "none"@
    &&& r.metrics.knowledge_status@ == "off"@
}

/// `d` is the prefilter's decision for `snapshot`.
pub open spec fn decision_of(d: BehaviorDecision, snapshot: BehaviorSnapshot) -> bool {
    if in_focus_flow(snapshot) {
        d matches BehaviorDecision::Suppress { reason } && reason@ == "focused-typing-window"@
    } else {
        d == BehaviorDecision::Allow
    }
}

/// Prompt budgeting, retrieval over the workspace index, extractive packing
/// into the context budget, and a per-session exact-prefix cache of the
/// assembled context.
#[derive(Debug, Clone)]
pub struct ContextPipeline {
    budget: TokenBudget,
    indexer: LexicalWorkspaceIndexer,
    compressor: ExtractiveContextCompressor,
    cache: ExactPrefixCache,
}

/// How long an assembled context stays in the prefix cache.
pub const PREFIX_CACHE_TTL_MS: u64 = 600_000;

/// What one `prepare` call does: `r` is the result and `new_p` the pipeline
/// after the call, for `request` handed to `old_p`.
pub open spec fn prepared(
    old_p: ContextPipeline,
    request: ContextRequest,
    capabilities: AdapterCapabilities,
    settings: Settings,
    sources: ContextSources,
    now_ms: u64,
    r: PipelineResult,
    new_p: ContextPipeline,
) -> bool {
    &&& new_p.budget_of() == old_p.budget_of()
    &&& new_p.docs_of() == old_p.docs_of()
    &&& new_p.cache_ttl() == old_p.cache_ttl()
    &&& {
        let adv = settings.advisory_intent_enabled;
        let (p, c1) = prompt_stage(request, capabilities, old_p.budget_of(), adv);
        let key = prefix_key(request.harness_session_id@, p);
        let live = live_entries(old_p.cache_of(), now_ms, old_p.cache_ttl());
        if in_focus_flow(request.behavior_snapshot) {
            &&& bare_result(r, p, c1, CacheStatus::Bypass, request.behavior_snapshot)
            &&& new_p.cache_of() == old_p.cache_of()
        } else if !capabilities.attach_context {
            &&& bare_result(
                r,
                p,
                c1,
                if request.cache_bypass {
                    CacheStatus::Bypass
                } else {
                    CacheStatus::MissStored
                },
                request.behavior_snapshot,
            )
            &&& new_p.cache_of() == old_p.cache_of()
        } else if !request.cache_bypass && cache_lookup(live, key) is Some {
            let ctx = cache_lookup(live, key)->0;
            &&& r.effective_prompt@ == prompt_with_context(p, ctx)
            &&& r.injected_context@ == ctx
            &&& r.injected_paths@.len() == 0
            &&& r.c1_stripped == c1
            &&& r.metrics.prompt_tokens == tokens(p)
            &&& r.metrics.selected_context_tokens == tokens(ctx)
            &&& r.metrics.context_candidates == 0
            &&& r.metrics.context_selected == 0
            &&& !r.metrics.context_truncated
            &&& r.metrics.cache_status == CacheStatus::Hit
            &&& decision_of(r.metrics.behavior_decision, request.behavior_snapshot)
            &&& r.metrics.retrieval == RetrievalDecision::Skipped
            &&& r.metrics.compression_strategy@ == "prefix_hit"@
            &&& r.metrics.knowledge_status@ == "off"@
            &&& new_p.cache_of() == live
        } else {
            let (ptext, ptokens, injected) = paths_stage(sources);
            let max_ctx = old_p.budget_of().max_context_tokens as nat;
            let remaining: nat = if max_ctx > ptokens {
                (max_ctx - ptokens) as nat
            } else {
                0
            };
            let (rctx, rsel, rtrunc, rcands, strategy) = retrieved_stage(
                old_p.docs_of(),
                request,
                p,
                adv,
                sources,
                remaining,
                ptext,
                ptokens,
            );
            let ctx2 = joined_context(ptext, rctx);
            let k = sources.knowledge;
            let ctx3 = if settings.knowledge_enabled {
                joined_context(ctx2, k.text@)
            } else {
                ctx2
            };
            let sel: nat = if settings.knowledge_enabled && k.text@.len() > 0 {
                rsel + k.tokens as nat
            } else {
                rsel
            };
            &&& r.effective_prompt@ == prompt_with_context(p, ctx3)
            &&& r.injected_context@ == ctx3
            &&& r.injected_paths@.map_values(|x: String| x@) == injected
            &&& r.c1_stripped == c1
            &&& r.metrics.prompt_tokens == tokens(p)
            &&& r.metrics.selected_context_tokens == sel
            &&& r.metrics.context_candidates == rcands
            &&& r.metrics.context_selected == if ctx3.len() == 0 {
                0
            } else {
                crate::text::text_lines(ctx3).len()
            }
            &&& r.metrics.context_truncated == rtrunc
            &&& r.metrics.cache_status == if request.cache_bypass {
                CacheStatus::Bypass
            } else {
                CacheStatus::MissStored
            }
            &&& decision_of(r.metrics.behavior_decision, request.behavior_snapshot)
            &&& r.metrics.retrieval == retrieval_stage(request, p, adv)
            &&& r.metrics.compression_strategy@ == strategy
            &&& r.metrics.knowledge_status@ == if settings.knowledge_enabled {
                k.status@
            } else {
                "off"@
            }
            &&& new_p.cache_of() == if request.cache_bypass {
                old_p.cache_of()
            } else {
                without_key(live, key).push((key, ctx3, now_ms))
            }
        }
    }
}

/// The prompt `prepare` works with: the budgeted prompt, with an editor
/// trailer stripped when context is attached.
pub open spec fn staged_prompt(
    old_p: ContextPipeline,
    request: ContextRequest,
    capabilities: AdapterCapabilities,
    settings: Settings,
) -> Seq<char> {
    prompt_stage(request, capabilities, old_p.budget_of(), settings.advisory_intent_enabled).0
}

/// A text that holds a pattern holds a last occurrence of it.
proof fn lemma_last_occurrence(h: Seq<char>, n: Seq<char>, i: int)
    requires
        crate::text::occurs_at(h, n, i),
    ensures
        exists|m: int| crate::text::occurs_at(h, n, m) && forall|j: int| m < j ==> !crate::text::occurs_at(h, n, j),
    decreases h.len() - i,
{
    if exists|j: int| i < j && crate::text::occurs_at(h, n, j) {
        let j = choose|j: int| i < j && crate::text::occurs_at(h, n, j);
        lemma_last_occurrence(h, n, j);
    } else {
        assert(forall|j: int| i < j ==> !crate::text::occurs_at(h, n, j));
    }
}

/// What the editor trailer strip keeps is a start of its input.
proof fn lemma_stripped_is_prefix(x: Seq<char>)
    ensures
        crate::turn_correlation::stripped_prompt(x).0.len() <= x.len(),
        x.take(crate::turn_correlation::stripped_prompt(x).0.len() as int)
            == crate::turn_correlation::stripped_prompt(x).0,
{
    let t = crate::text::trim_end(x);
    crate::text::lemma_trim_end_prefix(x);
    let sep = "\n---\n"@;
    if exists|i: int| crate::text::occurs_at(t, sep, i) {
        let i0 = choose|i: int| crate::text::occurs_at(t, sep, i);
        lemma_last_occurrence(t, sep, i0);
        let i = choose|i: int| crate::text::occurs_at(t, sep, i) && forall|j: int| i < j ==> !crate::text::occurs_at(t, sep, j);
        if starts_with(t.skip(i + 5), "File:"@) {
            let u = t.take(i);
            crate::text::lemma_trim_end_prefix(u);
            let w = crate::text::trim_end(u);
            assert(x.take(w.len() as int) =~= u.take(w.len() as int));
            assert(x.take(w.len() as int) =~= w);
        } else {
            assert(x.take(x.len() as int) =~= x);
        }
    } else {
        assert(x.take(x.len() as int) =~= x);
    }
}

/// The prompt `prepare` sends is a start of the request's prompt, followed by
/// the injected context under its heading when there is any; its token count
/// is that start's; and with a truncating runtime it holds at most four
/// characters per token of the prompt budget.
pub proof fn law_prepared_prompt_is_bounded_prefix(
    old_p: ContextPipeline,
    request: ContextRequest,
    capabilities: AdapterCapabilities,
    settings: Settings,
    sources: ContextSources,
    now_ms: u64,
    r: PipelineResult,
    new_p: ContextPipeline,
)
    requires
        prepared(old_p, request, capabilities, settings, sources, now_ms, r, new_p),
    ensures
        ({
            let b = staged_prompt(old_p, request, capabilities, settings);
            &&& b.len() <= request.prompt@.len()
            &&& request.prompt@.take(b.len() as int) == b
            &&& r.effective_prompt@ == prompt_with_context(b, r.injected_context@)
            &&& r.metrics.prompt_tokens == tokens(b)
            &&& capabilities.truncate_prompt ==> b.len() <= old_p.budget_of().max_prompt_tokens * 4
        }),
{
    let m = old_p.budget_of().max_prompt_tokens as nat;
    let bp = if capabilities.truncate_prompt {
        budgeted_prompt(request.prompt@, m)
    } else {
        request.prompt@
    };
    law_prompt_budget_bounds(request.prompt@, m);
    assert(request.prompt@.take(request.prompt@.len() as int) =~= request.prompt@);
    lemma_stripped_is_prefix(bp);
    let b = staged_prompt(old_p, request, capabilities, settings);
    assert(bp.take(b.len() as int) == b);
    assert(request.prompt@.take(b.len() as int) =~= bp.take(b.len() as int));
    assert(prompt_with_context(b, Seq::<char>::empty()) == b);
}

/// A request that bypasses the cache is reported as a bypass and leaves the
/// prefix cache as it was: nothing is added, replaced or pruned.
pub proof fn law_bypass_leaves_prefix_cache(
    old_p: ContextPipeline,
    request: ContextRequest,
    capabilities: AdapterCapabilities,
    settings: Settings,
    sources: ContextSources,
    now_ms: u64,
    r: PipelineResult,
    new_p: ContextPipeline,
)
    requires
        prepared(old_p, request, capabilities, settings, sources, now_ms, r, new_p),
        request.cache_bypass,
    ensures
        r.metrics.cache_status == CacheStatus::Bypass,
        new_p.cache_of() == old_p.cache_of(),
{
}

/// While the user types in a focused window no context is gathered: nothing
/// is injected or retrieved, the cache is bypassed and left as it was, and the
/// prompt goes out without a context block.
pub proof fn law_focus_flow_suppresses_context(
    old_p: ContextPipeline,
    request: ContextRequest,
    capabilities: AdapterCapabilities,
    settings: Settings,
    sources: ContextSources,
    now_ms: u64,
    r: PipelineResult,
    new_p: ContextPipeline,
)
    requires
        prepared(old_p, request, capabilities, settings, sources, now_ms, r, new_p),
        in_focus_flow(request.behavior_snapshot),
    ensures
        r.metrics.behavior_decision matches BehaviorDecision::Suppress { reason } && reason@
            == "focused-typing-window"@,
        r.injected_context@.len() == 0,
        r.injected_paths@.len() == 0,
        r.metrics.cache_status == CacheStatus::Bypass,
        r.metrics.retrieval == RetrievalDecision::Skipped,
        r.metrics.context_candidates == 0,
        r.effective_prompt@ == staged_prompt(old_p, request, capabilities, settings),
        new_p.cache_of() == old_p.cache_of(),
{
}

/// A runtime that takes no context gets the (budgeted) prompt as it came:
/// no trailer is stripped, nothing is injected or retrieved, the cache status
/// follows the bypass flag, and the prefix cache is left as it was.
pub proof fn law_no_attach_keeps_prompt(
    old_p: ContextPipeline,
    request: ContextRequest,
    capabilities: AdapterCapabilities,
    settings: Settings,
    sources: ContextSources,
    now_ms: u64,
    r: PipelineResult,
    new_p: ContextPipeline,
)
    requires
        prepared(old_p, request, capabilities, settings, sources, now_ms, r, new_p),
        !capabilities.attach_context,
        !in_focus_flow(request.behavior_snapshot),
    ensures
        r.metrics.behavior_decision == BehaviorDecision::Allow,
        r.injected_context@.len() == 0,
        r.injected_paths@.len() == 0,
        !r.c1_stripped,
        r.effective_prompt@ == if capabilities.truncate_prompt {
            budgeted_prompt(request.prompt@, old_p.budget_of().max_prompt_tokens as nat)
        } else {
            request.prompt@
        },
        r.metrics.retrieval == RetrievalDecision::Skipped,
        r.metrics.cache_status == if request.cache_bypass {
            CacheStatus::Bypass
        } else {
            CacheStatus::MissStored
        },
        new_p.cache_of() == old_p.cache_of(),
{
}

impl ContextPipeline {
    pub closed spec fn budget_of(&self) -> TokenBudget {
        self.budget
    }

    pub closed spec fn docs_of(&self) -> Seq<(Seq<char>, Seq<char>)> {
        self.indexer.docs_view()
    }

    pub closed spec fn cache_of(&self) -> Seq<(Seq<char>, Seq<char>, u64)> {
        self.cache.entries_view()
    }

    pub closed spec fn cache_ttl(&self) -> u64 {
        self.cache.ttl()
    }

    /// The token budget the pipeline was built with.
    pub fn budget(&self) -> (b: TokenBudget)
        ensures
            b == self.budget_of(),
    {
        self.budget
    }

    /// A pipeline over `indexer` with the configured token budget and an
    /// empty cache.
    pub fn with_indexer(indexer: LexicalWorkspaceIndexer, settings: &Settings) -> (p: Self)
        ensures
            p.budget_of() == TokenBudget::from_config_spec(*settings),
            p.docs_of() == indexer.docs_view(),
            p.cache_of().len() == 0,
            p.cache_ttl() == PREFIX_CACHE_TTL_MS,
    {
        ContextPipeline {
            budget: TokenBudget::from_config(settings),
            indexer,
            compressor: ExtractiveContextCompressor,
            cache: ExactPrefixCache::new(PREFIX_CACHE_TTL_MS),
        }
    }

    /// The production pipeline: the index the configuration asks for (see
    /// [`LexicalWorkspaceIndexer::from_config`]).
    pub fn production_default(settings: &Settings, collected: Vec<(String, String)>) -> (p: Self)
        ensures
            p.budget_of() == TokenBudget::from_config_spec(*settings),
            p.cache_of().len() == 0,
            lower(trim(settings.workspace_indexer_mode@)) == "seeded"@ ==> p.docs_of() == admitted(
                seed_docs(),
            ),
    {
        let indexer = LexicalWorkspaceIndexer::from_config(settings, collected);
        Self::with_indexer(indexer, settings)
    }

    /// Prepare the prompt and context for one request at `now_ms`.
    pub fn prepare(
        &mut self,
        request: &ContextRequest,
        capabilities: AdapterCapabilities,
        settings: &Settings,
        sources: &ContextSources,
        now_ms: u64,
    ) -> (r: PipelineResult)
        requires
            sources.context_paths_budget + old(self).budget_of().max_context_tokens
                + sources.knowledge.tokens <= usize::MAX,
        ensures
            prepared(*old(self), *request, capabilities, *settings, *sources, now_ms, r, *final(self)),
    {
        let ghost adv = settings.advisory_intent_enabled;
        let (p, c1_stripped, skip) = self.prompt_phase(request, capabilities, settings);
        let decision = BehavioralPrefilter::evaluate(request.behavior_snapshot);
        let prompt_tokens = tokens_vec(&p);
        match decision {
            BehaviorDecision::Suppress { .. } => {
                return bare(&p, c1_stripped, CacheStatus::Bypass, decision, prompt_tokens);
            },
            BehaviorDecision::Allow => {},
        }
        if !capabilities.attach_context {
            let status = if request.cache_bypass {
                CacheStatus::Bypass
            } else {
                CacheStatus::MissStored
            };
            return bare(&p, c1_stripped, status, decision, prompt_tokens);
        }
        let bounded = string_of(&p);
        let cache_key = stable_prefix_key(request.harness_session_id.as_str(), bounded.as_str());
        if !request.cache_bypass {
            match self.cache.get(cache_key.as_str(), now_ms) {
                Some(context) => {
                    return PipelineResult {
                        effective_prompt: join_prompt_and_context(
                            bounded.as_str(),
                            context.as_str(),
                        ),
                        injected_context: string_of(&chars_of(context.as_str())),
                        injected_paths: Vec::new(),
                        c1_stripped,
                        metrics: PipelineMetrics {
                            prompt_tokens,
                            selected_context_tokens: estimate_tokens(context.as_str()),
                            context_candidates: 0,
                            context_selected: 0,
                            context_truncated: false,
                            cache_status: CacheStatus::Hit,
                            behavior_decision: decision,
                            retrieval: RetrievalDecision::Skipped,
                            compression_strategy: "prefix_hit",
                            knowledge_status: "off",
                        },
                    };
                },
                None => {},
            }
        }
        let (ptext, ptokens, injected_paths) = context_paths_bundle(sources);
        let remaining = if self.budget.max_context_tokens > ptokens {
            self.budget.max_context_tokens - ptokens
        } else {
            0
        };
        let (rctx, rsel, rtrunc, rcands, strategy) = self.retrieve_phase(
            request,
            &p,
            skip,
            settings,
            sources,
            remaining,
            &ptext,
            ptokens,
        );
        let ctx2 = join_context_vec(&ptext, &rctx);
        let (ctx3, selected, knowledge_status) = with_knowledge(&ctx2, rsel, settings, sources);
        if !request.cache_bypass {
            self.cache.put(cache_key, string_of(&ctx3), now_ms);
        }
        finished(
            &p,
            &ctx3,
            injected_paths,
            c1_stripped,
            prompt_tokens,
            selected,
            rcands,
            rtrunc,
            request.cache_bypass,
            decision,
            if skip {
                RetrievalDecision::Skipped
            } else {
                self.retrieval_kind(&p, settings)
            },
            strategy,
            knowledge_status,
        )
    }

    /// The budgeted (and possibly stripped) prompt, whether the trailer was
    /// stripped, and whether retrieval is skipped.
    fn prompt_phase(
        &self,
        request: &ContextRequest,
        capabilities: AdapterCapabilities,
        settings: &Settings,
    ) -> (r: (Vec<char>, bool, bool))
        ensures
            (r.0@, r.1) == prompt_stage(
                *request,
                capabilities,
                self.budget_of(),
                settings.advisory_intent_enabled,
            ),
            r.2 == skip_retrieval(
                request.prompt@,
                request.retrieve_off,
                request.behavior_snapshot,
                settings.advisory_intent_enabled,
            ),
    {
        let bounded = if capabilities.truncate_prompt {
            apply_prompt_budget(request.prompt.as_str(), self.budget.max_prompt_tokens)
        } else {
            string_of(&chars_of(request.prompt.as_str()))
        };
        let skip = should_skip_retrieval(request, settings);
        if capabilities.attach_context && !skip {
            let (stripped, applied) = crate::turn_correlation::strip_extension_context_blocks(
                bounded.as_str(),
            );
            if applied {
                return (chars_of(stripped.as_str()), true, skip);
            }
            return (chars_of(bounded.as_str()), false, skip);
        }
        (chars_of(bounded.as_str()), false, skip)
    }

    /// Advisory bundle or indexed retrieval for a prompt whose retrieval is
    /// not skipped.
    fn retrieval_kind(&self, p: &Vec<char>, settings: &Settings) -> (r: RetrievalDecision)
        ensures
            r == if settings.advisory_intent_enabled && crate::advisory_intent::is_advisory(p@)
                && p@.len() <= RETRIEVAL_SKIP_MAX_PROMPT_CHARS {
                RetrievalDecision::AdvisoryBundle
            } else {
                RetrievalDecision::Ran
            },
    {
        if settings.advisory_intent_enabled && crate::advisory_intent::matches_advisory_intent(
            string_of(p).as_str(),
        ) && p.len() <= RETRIEVAL_SKIP_MAX_PROMPT_CHARS {
            RetrievalDecision::AdvisoryBundle
        } else {
            RetrievalDecision::Ran
        }
    }

    /// The retrieved context for the prompt `p`.
    fn retrieve_phase(
        &self,
        request: &ContextRequest,
        p: &Vec<char>,
        skip: bool,
        settings: &Settings,
        sources: &ContextSources,
        remaining: usize,
        ptext: &Vec<char>,
        ptokens: usize,
    ) -> (r: (Vec<char>, usize, bool, usize, &'static str))
        requires
            skip == skip_retrieval(
                request.prompt@,
                request.retrieve_off,
                request.behavior_snapshot,
                settings.advisory_intent_enabled,
            ),
            ptokens + remaining <= usize::MAX,
        ensures
            (r.0@, r.1 as nat, r.2, r.3 as nat, r.4@) == retrieved_stage(
                self.docs_of(),
                *request,
                p@,
                settings.advisory_intent_enabled,
                *sources,
                remaining as nat,
                ptext@,
                ptokens as nat,
            ),
            r.1 <= ptokens + remaining,
    {
        let retrieval = if skip {
            RetrievalDecision::Skipped
        } else {
            self.retrieval_kind(p, settings)
        };
        match retrieval {
            RetrievalDecision::AdvisoryBundle => {
                let (b, t, tr) = load_path_bundle(&sources.advisory, remaining);
                proof {
                    lemma_packed_tokens(bundle_lines(sources_view(sources.advisory@)), remaining as nat);
                }
                (chars_of(b.as_str()), ptokens + t, tr, sources.advisory_paths_count, "advisory_bundle")
            },
            RetrievalDecision::Ran => {
                let mut query = clone_chars(p);
                match &request.diagnostics_hint {
                    Some(d) => {
                        query.push(' ');
                        append_vec(&mut query, &chars_of(d.as_str()));
                    },
                    None => {},
                }
                let query_str = string_of(&query);
                assert(query_str@ == query_of(*request, p@));
                let mut candidates = self.indexer.search(query_str.as_str(), 5);
                match &request.active_file_path {
                    Some(a) => boost_active_file_candidate(&mut candidates, a.as_str()),
                    None => {},
                }
                let (c, t, tr) = self.compressor.compress(query_str.as_str(), &candidates, remaining);
                proof {
                    if remaining > 0 && candidates@.len() > 0 {
                        lemma_packed_tokens(
                            ranked_lines(query_str@, chunks_view(candidates@)),
                            remaining as nat,
                        );
                    }
                }
                let strategy = if candidates.len() == 0 {
                    "none"
                } else {
                    "extractive_query"
                };
                (chars_of(c.as_str()), ptokens + t, tr, candidates.len(), strategy)
            },
            RetrievalDecision::Skipped => {
                let strategy = if ptext.len() == 0 {
                    "none"
                } else {
                    "context_paths"
                };
                (Vec::new(), ptokens, false, 0, strategy)
            },
        }
    }
}

/// The result when no context is assembled.
fn bare(
    p: &Vec<char>,
    c1: bool,
    status: CacheStatus,
    decision: BehaviorDecision,
    prompt_tokens: usize,
) -> (r: PipelineResult)
    requires
        prompt_tokens == tokens(p@),
    ensures
        r.effective_prompt@ == p@,
        r.injected_context@.len() == 0,
        r.injected_paths@.len() == 0,
        r.c1_stripped == c1,
        r.metrics.prompt_tokens == tokens(p@),
        r.metrics.selected_context_tokens == 0,
        r.metrics.context_candidates == 0,
        r.metrics.context_selected == 0,
        !r.metrics.context_truncated,
        r.metrics.cache_status == status,
        r.metrics.behavior_decision == decision,
        r.metrics.retrieval == RetrievalDecision::Skipped,
        r.metrics.compression_strategy@ == "none"@,
        r.metrics.knowledge_status@ == "off"@,
{
    PipelineResult {
        effective_prompt: string_of(p),
        injected_context: String::new(),
        injected_paths: Vec::new(),
        c1_stripped: c1,
        metrics: PipelineMetrics {
            prompt_tokens,
            selected_context_tokens: 0,
            context_candidates: 0,
            context_selected: 0,
            context_truncated: false,
            cache_status: status,
            behavior_decision: decision,
            retrieval: RetrievalDecision::Skipped,
            compression_strategy: "none",
            knowledge_status: "off",
        },
    }
}

/// The context with the knowledge context appended when knowledge retrieval
/// is enabled, the selected tokens, and the knowledge status.
fn with_knowledge(ctx: &Vec<char>, selected: usize, settings: &Settings, sources: &ContextSources) -> (r:
    (Vec<char>, usize, &'static str))
    requires
        selected + sources.knowledge.tokens <= usize::MAX,
    ensures
        r.0@ == if settings.knowledge_enabled {
            joined_context(ctx@, sources.knowledge.text@)
        } else {
            ctx@
        },
        r.1 == if settings.knowledge_enabled && sources.knowledge.text@.len() > 0 {
            selected + sources.knowledge.tokens
        } else {
            selected as int
        },
        r.2@ == if settings.knowledge_enabled {
            sources.knowledge.status@
        } else {
            "off"@
        },
{
    if settings.knowledge_enabled {
        let kt = chars_of(sources.knowledge.text.as_str());
        let c = join_context_vec(ctx, &kt);
        let sel = if kt.len() > 0 {
            selected + sources.knowledge.tokens
        } else {
            selected
        };
        (c, sel, sources.knowledge.status)
    } else {
        (clone_chars(ctx), selected, "off")
    }
}

/// The result once context has been assembled.
fn finished(
    p: &Vec<char>,
    ctx: &Vec<char>,
    injected_paths: Vec<String>,
    c1: bool,
    prompt_tokens: usize,
    selected: usize,
    candidates: usize,
    truncated: bool,
    bypass: bool,
    decision: BehaviorDecision,
    retrieval: RetrievalDecision,
    strategy: &'static str,
    knowledge_status: &'static str,
) -> (r: PipelineResult)
    ensures
        r.effective_prompt@ == prompt_with_context(p@, ctx@),
        r.injected_context@ == ctx@,
        r.injected_paths == injected_paths,
        r.c1_stripped == c1,
        r.metrics.prompt_tokens == prompt_tokens,
        r.metrics.selected_context_tokens == selected,
        r.metrics.context_candidates == candidates,
        r.metrics.context_selected == if ctx@.len() == 0 {
            0
        } else {
            crate::text::text_lines(ctx@).len()
        },
        r.metrics.context_truncated == truncated,
        r.metrics.cache_status == if bypass {
            CacheStatus::Bypass
        } else {
            CacheStatus::MissStored
        },
        r.metrics.behavior_decision == decision,
        r.metrics.retrieval == retrieval,
        r.metrics.compression_strategy == strategy,
        r.metrics.knowledge_status == knowledge_status,
{
    let context_selected = if ctx.len() == 0 {
        0
    } else {
        crate::text::text_lines_vec(ctx).len()
    };
    let context = string_of(ctx);
    PipelineResult {
        effective_prompt: join_prompt_and_context(string_of(p).as_str(), context.as_str()),
        injected_context: context,
        injected_paths,
        c1_stripped: c1,
        metrics: PipelineMetrics {
            prompt_tokens,
            selected_context_tokens: selected,
            context_candidates: candidates,
            context_selected,
            context_truncated: truncated,
            cache_status: if bypass {
                CacheStatus::Bypass
            } else {
                CacheStatus::MissStored
            },
            behavior_decision: decision,
            retrieval,
            compression_strategy: strategy,
            knowledge_status,
        },
    }
}

impl TokenBudget {
    /// The budget `from_config` builds.
    pub open spec fn from_config_spec(settings: Settings) -> TokenBudget {
        TokenBudget {
            max_prompt_tokens: if settings.max_prompt_tokens < 1 {
                1
            } else {
                settings.max_prompt_tokens
            },
            max_context_tokens: if settings.max_context_tokens < 1 {
                1
            } else {
                settings.max_context_tokens
            },
        }
    }
}

/// The context-path text, its tokens and the injected paths.
fn context_paths_bundle(sources: &ContextSources) -> (r: (Vec<char>, usize, Vec<String>))
    ensures
        (r.0@, r.1 as nat, r.2@.map_values(|x: String| x@)) == paths_stage(*sources),
        r.1 <= sources.context_paths_budget,
{
    let cps = &sources.context_paths;
    if cps.len() == 0 {
        let v: Vec<String> = Vec::new();
        assert(v@.map_values(|x: String| x@) =~= Seq::<Seq<char>>::empty());
        return (Vec::new(), 0, v);
    }
    let mut loaded: Vec<(String, Option<String>)> = Vec::new();
    let mut files: Vec<String> = Vec::new();
    let mut i: usize = 0;
    while i < cps.len()
        invariant
            i <= cps.len(),
            sources_view(loaded@) == context_paths_view(cps@).take(i as int),
            files@.map_values(|x: String| x@) == file_paths(cps@.take(i as int)),
        decreases cps.len() - i,
    {
        let c = &cps[i];
        let text = match &c.text {
            Some(t) => Some(string_of(&chars_of(t.as_str()))),
            None => None,
        };
        let ghost lb = loaded@;
        loaded.push((string_of(&chars_of(c.rel.as_str())), text));
        assert(sources_view(loaded@) =~= sources_view(lb).push(context_paths_view(cps@)[i as int]));
        assert(context_paths_view(cps@).take(i + 1) =~= context_paths_view(cps@).take(i as int).push(
            context_paths_view(cps@)[i as int],
        ));
        assert(cps@.take(i + 1).drop_last() =~= cps@.take(i as int));
        if c.is_file {
            let ghost fb = files@;
            files.push(string_of(&chars_of(c.rel.as_str())));
            assert(files@.map_values(|x: String| x@) =~= fb.map_values(|x: String| x@).push(c.rel@));
        }
        i = i + 1;
    }
    assert(context_paths_view(cps@).take(cps.len() as int) =~= context_paths_view(cps@));
    assert(cps@.take(cps.len() as int) =~= cps@);
    let (text, t, _) = load_path_bundle(&loaded, sources.context_paths_budget);
    proof {
        lemma_packed_tokens(
            bundle_lines(context_paths_view(cps@)),
            sources.context_paths_budget as nat,
        );
    }
    (chars_of(text.as_str()), t, files)
}


// ---------------------------------------------------------------------------
// Laws
// ---------------------------------------------------------------------------

proof fn lemma_scored_docs(docs: Seq<(Seq<char>, Seq<char>)>, q: Seq<Seq<char>>)
    ensures
        forall|k: int|
            0 <= k < scored_docs(docs, q).len() ==> (#[trigger] scored_docs(docs, q)[k]).0 == score(
                q,
                terms(scored_docs(docs, q)[k].2),
            ) && scored_docs(docs, q)[k].0 > 0,
    decreases docs.len(),
{
    if docs.len() > 0 {
        lemma_scored_docs(docs.drop_last(), q);
        let rest = scored_docs(docs.drop_last(), q);
        let s = scored_docs(docs, q);
        assert forall|k: int| 0 <= k < s.len() implies (#[trigger] s[k]).0 == score(
            q,
            terms(s[k].2),
        ) && s[k].0 > 0 by {
            if k < rest.len() {
                assert(s[k] == rest[k]);
            }
        }
    }
}

/// A document of the index that scores above zero has an entry in the scored
/// list.
proof fn lemma_scored_docs_has(docs: Seq<(Seq<char>, Seq<char>)>, q: Seq<Seq<char>>, d: int)
    requires
        0 <= d < docs.len(),
        score(q, terms(docs[d].1)) > 0,
    ensures
        exists|m: int|
            0 <= m < scored_docs(docs, q).len() && (#[trigger] scored_docs(docs, q)[m]).1 == docs[d].0
                && scored_docs(docs, q)[m].2 == docs[d].1,
    decreases docs.len(),
{
    let rest = scored_docs(docs.drop_last(), q);
    if d == docs.len() - 1 {
        assert(scored_docs(docs, q)[rest.len() as int] == (score(q, terms(docs[d].1)), docs[d].0, docs[d].1));
    } else {
        assert(docs.drop_last()[d] == docs[d]);
        lemma_scored_docs_has(docs.drop_last(), q, d);
        let m = choose|m: int|
            0 <= m < rest.len() && (#[trigger] rest[m]).1 == docs[d].0 && rest[m].2 == docs[d].1;
        assert(scored_docs(docs, q)[m] == rest[m]);
    }
}

/// Search returns the best documents: a document that scores above zero and
/// is not among the results only comes about when the results already fill
/// `top_k`, and every result scores at least as high as it.
pub proof fn law_search_is_top_k(docs: Seq<(Seq<char>, Seq<char>)>, query: Seq<char>, top_k: nat, d: int)
    requires
        0 <= d < docs.len(),
        terms(query).len() > 0,
        score(terms(query), terms(docs[d].1)) > 0,
        !search_result(docs, query, top_k).contains(docs[d]),
    ensures
        search_result(docs, query, top_k).len() == top_k,
        forall|i: int|
            0 <= i < search_result(docs, query, top_k).len() ==> score(
                terms(query),
                terms(#[trigger] search_result(docs, query, top_k)[i].1),
            ) >= score(terms(query), terms(docs[d].1)),
{
    let q = terms(query);
    let s = scored_docs(docs, q);
    let keys = score_keys(s);
    let r = search_result(docs, query, top_k);
    if top_k > 0 {
        crate::order::lemma_ranking(keys);
        lemma_scored_docs(docs, q);
        lemma_scored_docs_has(docs, q, d);
        let m = choose|m: int| 0 <= m < s.len() && (#[trigger] s[m]).1 == docs[d].0 && s[m].2 == docs[d].1;
        let ord = ranking(keys);
        assert(ord.contains(m));
        let p = choose|p: int| 0 <= p < ord.len() && ord[p] == m;
        let n: nat = if top_k < s.len() {
            top_k
        } else {
            s.len()
        };
        assert(r.len() == n);
        if p < n {
            assert(r[p] == (s[m].1, s[m].2));
            assert(r[p] == docs[d]);
            assert(false);
        }
        assert forall|i: int| 0 <= i < r.len() implies score(q, terms(#[trigger] r[i].1)) >= score(q, terms(docs[d].1)) by {
            let a = ord[i];
            assert(crate::order::rank_order(keys)(a, m));
            assert(keys[a] == (s[a].0, s[a].1));
            assert(keys[m] == (s[m].0, s[m].1));
            assert(r[i] == (s[a].1, s[a].2));
        }
    }
}

/// Every entry of the scored list is a document of the index.
proof fn lemma_scored_docs_from(docs: Seq<(Seq<char>, Seq<char>)>, q: Seq<Seq<char>>)
    ensures
        forall|m: int|
            0 <= m < scored_docs(docs, q).len() ==> docs.contains(
                ((#[trigger] scored_docs(docs, q)[m]).1, scored_docs(docs, q)[m].2),
            ),
    decreases docs.len(),
{
    if docs.len() > 0 {
        let p = docs.drop_last();
        lemma_scored_docs_from(p, q);
        let rest = scored_docs(p, q);
        let s = scored_docs(docs, q);
        assert forall|m: int| 0 <= m < s.len() implies docs.contains(((#[trigger] s[m]).1, s[m].2)) by {
            if m < rest.len() {
                assert(s[m] == rest[m]);
                let d = choose|d: int| 0 <= d < p.len() && p[d] == (rest[m].1, rest[m].2);
                assert(docs[d] == p[d]);
            } else {
                assert(docs[docs.len() - 1] == docs.last());
            }
        }
    }
}

/// Search returns only documents of the index that share a term with the
/// query, at most `top_k` of them, and nothing for a query without terms or a
/// zero `top_k`.
pub proof fn law_search_results_indexed(docs: Seq<(Seq<char>, Seq<char>)>, query: Seq<char>, top_k: nat)
    ensures
        terms(query).len() == 0 || top_k == 0 ==> search_result(docs, query, top_k).len() == 0,
        search_result(docs, query, top_k).len() <= top_k,
        forall|i: int|
            0 <= i < search_result(docs, query, top_k).len() ==> docs.contains(
                #[trigger] search_result(docs, query, top_k)[i],
            ) && score(terms(query), terms(search_result(docs, query, top_k)[i].1)) > 0,
{
    let q = terms(query);
    if q.len() > 0 && top_k > 0 {
        let s = scored_docs(docs, q);
        let keys = score_keys(s);
        crate::order::lemma_ranking(keys);
        lemma_scored_docs(docs, q);
        lemma_scored_docs_from(docs, q);
        let ord = ranking(keys);
        let r = search_result(docs, query, top_k);
        assert forall|i: int| 0 <= i < r.len() implies docs.contains(#[trigger] r[i]) && score(
            q,
            terms(r[i].1),
        ) > 0 by {
            let a = ord[i];
            assert(r[i] == (s[a].1, s[a].2));
        }
    }
}

/// Search results come best first: a result never scores above the one
/// before it, and results of equal score come in source order.
pub proof fn law_search_results_ranked(
    docs: Seq<(Seq<char>, Seq<char>)>,
    query: Seq<char>,
    top_k: nat,
    i: int,
    j: int,
)
    requires
        0 <= i < j < search_result(docs, query, top_k).len(),
    ensures
        ({
            let r = search_result(docs, query, top_k);
            let q = terms(query);
            let si = score(q, terms(r[i].1));
            let sj = score(q, terms(r[j].1));
            si >= sj && (si == sj ==> crate::order::text_le(r[i].0, r[j].0))
        }),
{
    let q = terms(query);
    let s = scored_docs(docs, q);
    let keys = score_keys(s);
    let leq = crate::order::rank_order(keys);
    crate::order::lemma_ranking(keys);
    lemma_scored_docs(docs, q);
    let ord = ranking(keys);
    let a = ord[i];
    let b = ord[j];
    assert(leq(a, b));
    assert(keys[a] == (s[a].0, s[a].1));
    assert(keys[b] == (s[b].0, s[b].1));
    if s[a].0 == s[b].0 && s[a].1 == s[b].1 {
        crate::order::lemma_text_le_reflexive(s[a].1);
    }
}

/// Two different (trimmed) harness sessions never share a prefix-cache key.
pub proof fn law_prefix_keys_isolate_sessions(s1: Seq<char>, s2: Seq<char>, prompt: Seq<char>)
    requires
        trim(s1) != trim(s2),
    ensures
        prefix_key(s1, prompt) != prefix_key(s2, prompt),
{
    let n = if prompt.len() < 96 {
        prompt.len() as int
    } else {
        96
    };
    let p = prompt.take(n);
    let t1 = trim(s1);
    let t2 = trim(s2);
    let k1 = prefix_key(s1, prompt);
    let k2 = prefix_key(s2, prompt);
    assert(t1.len() > 0 ==> k1 == t1 + seq![':'] + p);
    assert(t2.len() > 0 ==> k2 == t2 + seq![':'] + p);
    assert(t1.len() == 0 ==> k1 == p);
    assert(t2.len() == 0 ==> k2 == p);
    if k1 == k2 {
        if t1.len() > 0 && t2.len() > 0 {
            assert(k1.len() == t1.len() + 1 + p.len());
            assert(k2.len() == t2.len() + 1 + p.len());
            assert(t1 =~= k1.take(t1.len() as int));
            assert(t2 =~= k2.take(t2.len() as int));
            assert(t1.len() == t2.len());
            assert(t1 == t2);
        } else if t1.len() > 0 {
            assert(k1.len() == t1.len() + 1 + p.len());
        } else if t2.len() > 0 {
            assert(k2.len() == t2.len() + 1 + p.len());
        } else {
            assert(t1 =~= t2);
        }
    }
}

/// The cache key of a prompt is a prefix of the key of any prompt that
/// extends it.
pub proof fn law_prefix_key_is_stable(session: Seq<char>, prompt: Seq<char>, more: Seq<char>)
    ensures
        crate::text::starts_with(prefix_key(session, prompt + more), prefix_key(session, prompt)),
{
    let a = prompt;
    let b = prompt + more;
    let na = if a.len() < 96 {
        a.len() as int
    } else {
        96
    };
    let nb = if b.len() < 96 {
        b.len() as int
    } else {
        96
    };
    assert(b.take(nb).take(na) =~= a.take(na));
    let t = trim(session);
    if t.len() > 0 {
        assert((t + seq![':'] + b.take(nb)).take((t + seq![':'] + a.take(na)).len() as int)
            =~= t + seq![':'] + a.take(na));
    }
}


/// Most files the workspace indexer collects.
pub const INDEX_MAX_FILES: usize = 32;

/// Most characters kept of an indexed file (and the largest file size read).
pub const INDEX_MAX_BYTES_PER_FILE: usize = 4096;

/// What the indexer does with one directory entry.
#[derive(Debug, Clone, PartialEq, Eq)]
pub enum DocEntryAction {
    Skip,
    /// Walk into the directory.
    Descend,
    /// Read the file and keep it under this workspace-relative path.
    Read(String),
}

/// The action for an entry at workspace-relative path `rel` (separators
/// normalized to `/`): ignored paths are skipped, directories walked, and
/// files read when their extension is indexed and they are small enough.
pub open spec fn doc_entry_action_of(rel: Seq<char>, is_dir: bool, size: u64, max_bytes: usize) -> Option<
    Option<Seq<char>>,
> {
    let n = crate::text::replace_char(rel, '\\', '/');
    if is_ignored(n) {
        None
    } else if is_dir {
        Some(None)
    } else if !is_indexable(n) || size > max_bytes {
        None
    } else {
        Some(Some(n))
    }
}

/// Decide what to do with one directory entry while collecting documents.
pub fn doc_entry_action(rel: &str, is_dir: bool, size: u64, max_bytes: usize) -> (a: DocEntryAction)
    ensures
        match doc_entry_action_of(rel@, is_dir, size, max_bytes) {
            None => a is Skip,
            Some(None) => a is Descend,
            Some(Some(n)) => a matches DocEntryAction::Read(p) && p@ == n,
        },
{
    let n = string_of(&crate::text::replace_char_vec(&chars_of(rel), '\\', '/'));
    if is_ignored_path(n.as_str()) {
        DocEntryAction::Skip
    } else if is_dir {
        DocEntryAction::Descend
    } else if !is_indexable_extension(n.as_str()) || size > max_bytes as u64 {
        DocEntryAction::Skip
    } else {
        DocEntryAction::Read(n)
    }
}

/// The collected document for a file's text: its first `max_bytes`
/// characters, none when that is empty.
pub fn collected_doc(rel: String, text: &str, max_bytes: usize) -> (r: Option<(String, String)>)
    ensures
        text@.len() == 0 || max_bytes == 0 ==> r is None,
        text@.len() > 0 && max_bytes > 0 ==> (r matches Some(d) && d.0 == rel && d.1@ == if text@.len()
            <= max_bytes {
            text@
        } else {
            text@.take(max_bytes as int)
        }),
{
    let v = chars_of(text);
    let n = if v.len() <= max_bytes {
        v.len()
    } else {
        max_bytes
    };
    if n == 0 {
        return None;
    }
    let kept = crate::text::slice_vec(&v, 0, n);
    assert(v@.len() <= max_bytes ==> kept@ =~= text@);
    Some((rel, string_of(&kept)))
}

/// The collection is full.
pub fn collection_full(collected: usize, max_files: usize) -> (b: bool)
    ensures
        b == (collected >= max_files),
{
    collected >= max_files
}

} // verus!
