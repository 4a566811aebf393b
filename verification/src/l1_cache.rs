//! Exact response cache (L1): key construction and eligibility of stream results.
use std::hash::{Hash, Hasher};
use vstd::prelude::*;

use crate::adapters::{RpcStatus, RuntimeKind, StreamInferenceResponse};
use crate::text::{append_vec, chars_of, lower, lower_vec, string_of, trim, trim_end, trim_vec};

verus! {

/// Normalized mode: trimmed and ASCII lower-cased, with empty meaning `ask`.
pub open spec fn mode_spec(raw: Seq<char>) -> Seq<char> {
    let t = trim(raw);
    if t.len() == 0 {
        "ask"@
    } else {
        lower(t)
    }
}

/// Normalizing a normalized mode changes nothing.
pub proof fn law_normalize_mode_idempotent(raw: Seq<char>)
    ensures
        mode_spec(mode_spec(raw)) == mode_spec(raw),
{
    let t = trim(raw);
    if t.len() == 0 {
        let a = "ask"@;
        reveal_strlit("ask");
        assert(!crate::text::is_ws(a[0]) && !crate::text::is_ws(a.last()));
        crate::text::lemma_trim_ends(a);
        assert(lower(a) =~= a);
    } else {
        crate::text::lemma_trim_ends(raw);
        let l = lower(t);
        assert(l.len() == t.len());
        assert(l[0] == crate::text::lower_char(t[0]));
        assert(l.last() == crate::text::lower_char(t.last()));
        crate::text::lemma_trim_ends(l);
        assert(lower(l) =~= l);
    }
}

/// Normalized (empty → `ask`); trim + lowercase ASCII.
pub fn normalize_mode(raw: &str) -> (s: String)
    ensures
        s@ == mode_spec(raw@),
{
    let t = trim_vec(&chars_of(raw));
    if t.len() == 0 {
        String::from_str("ask")
    } else {
        string_of(&lower_vec(&t))
    }
}


/// Bumped when the key shape or response semantics change.
pub const L1_CACHE_SCHEMA: u32 = 1;

/// Most entries the L1 cache holds.
pub const L1_MAX_ENTRIES: usize = 256;

/// `s` with every `\r\n` replaced by `\n` (left to right).
pub open spec fn crlf_to_lf(s: Seq<char>) -> Seq<char>
    decreases s.len(),
{
    if s.len() == 0 {
        s
    } else if s.len() >= 2 && s[0] == '\r' && s[1] == '\n' {
        seq!['\n'] + crlf_to_lf(s.skip(2))
    } else {
        seq![s[0]] + crlf_to_lf(s.drop_first())
    }
}

/// The prompt as the L1 key hashes it: line endings collapsed to `\n`,
/// trailing white space removed from every line, then trimmed.
pub open spec fn l1_prompt(s: Seq<char>) -> Seq<char> {
    let lines = crate::path::split_char(crlf_to_lf(s), '\n');
    trim(crate::path::join_with(lines.map_values(|l: Seq<char>| trim_end(l)), seq!['\n']))
}

/// Joining a text's pieces split at `c` by `c` gives the text back.
proof fn lemma_join_split(s: Seq<char>, c: char)
    ensures
        crate::path::join_with(crate::path::split_char(s, c), seq![c]) == s,
    decreases s.len(),
{
    if s.len() > 0 {
        let t = s.drop_last();
        lemma_join_split(t, c);
        crate::path::lemma_split_char_nonempty(t, c);
        let l = crate::path::split_char(t, c);
        if s.last() == c {
            let u = l.push(Seq::<char>::empty());
            assert(u.drop_last() =~= l);
            assert(t + seq![c] + Seq::<char>::empty() =~= s);
        } else {
            let u = l.update(l.len() - 1, l.last().push(s.last()));
            if l.len() > 1 {
                assert(u.drop_last() =~= l.drop_last());
                assert(crate::path::join_with(l.drop_last(), seq![c]) + seq![c] + l.last().push(s.last())
                    =~= (crate::path::join_with(l.drop_last(), seq![c]) + seq![c] + l.last()).push(s.last()));
            }
            assert(t.push(s.last()) =~= s);
        }
    }
}

/// Every character that ends a line (comes right before a line break) is a
/// line break or not white space.
pub open spec fn line_ends_clean(s: Seq<char>) -> bool {
    forall|i: int| 0 <= i < s.len() - 1 && s[i + 1] == '\n' && s[i] != '\n' ==> !crate::text::is_ws(#[trigger] s[i])
}

/// Under clean line ends, no line but the last has trailing white space, and
/// the last line ends with the text's last character.
proof fn lemma_split_lines_trimmed(s: Seq<char>)
    requires
        line_ends_clean(s),
    ensures
        ({
            let l = crate::path::split_char(s, '\n');
            &&& l.len() >= 1
            &&& forall|i: int| 0 <= i < l.len() - 1 ==> trim_end(#[trigger] l[i]) == l[i]
            &&& l.last().len() > 0 ==> s.len() > 0 && l.last().last() == s.last()
            &&& s.len() > 0 && s.last() == '\n' ==> l.last().len() == 0
        }),
    decreases s.len(),
{
    crate::path::lemma_split_char_nonempty(s, '\n');
    if s.len() > 0 {
        let t = s.drop_last();
        assert(line_ends_clean(t)) by {
            assert forall|i: int| 0 <= i < t.len() - 1 && t[i + 1] == '\n' && t[i] != '\n' implies !crate::text::is_ws(#[trigger] t[i]) by {
                assert(t[i] == s[i] && t[i + 1] == s[i + 1]);
            }
        }
        lemma_split_lines_trimmed(t);
        let lt = crate::path::split_char(t, '\n');
        let l = crate::path::split_char(s, '\n');
        if s.last() == '\n' {
            assert(l == lt.push(Seq::<char>::empty()));
            assert forall|i: int| 0 <= i < l.len() - 1 implies trim_end(#[trigger] l[i]) == l[i] by {
                assert(l[i] == lt[i]);
                if i == lt.len() - 1 && lt.last().len() > 0 {
                    assert(t.len() > 0);
                    assert(t.last() != '\n');
                    assert(s[s.len() - 2] == t.last());
                    assert(!crate::text::is_ws(s[s.len() - 2]));
                }
            }
        } else {
            assert(l == lt.update(lt.len() - 1, lt.last().push(s.last())));
            assert forall|i: int| 0 <= i < l.len() - 1 implies trim_end(#[trigger] l[i]) == l[i] by {
                assert(l[i] == lt[i]);
            }
        }
    }
}

proof fn lemma_crlf_identity(s: Seq<char>)
    requires
        forall|i: int| 0 <= i < s.len() ==> s[i] != '\r',
    ensures
        crlf_to_lf(s) == s,
    decreases s.len(),
{
    if s.len() > 0 {
        let r = s.drop_first();
        assert forall|i: int| 0 <= i < r.len() implies r[i] != '\r' by {
            assert(r[i] == s[i + 1]);
        }
        lemma_crlf_identity(r);
        assert(s[0] != '\r');
        assert(seq![s[0]] + r =~= s);
    }
}

/// The L1 key keeps the whole prompt: a prompt without carriage returns,
/// with no white space before a line break or at either end, is its own
/// normalized form, so two different such prompts are hashed as different
/// texts.
pub proof fn law_l1_prompt_keeps_clean_prompt(s: Seq<char>)
    requires
        forall|i: int| 0 <= i < s.len() ==> s[i] != '\r',
        line_ends_clean(s),
        s.len() > 0 ==> !crate::text::is_ws(s[0]) && !crate::text::is_ws(s.last()),
    ensures
        l1_prompt(s) == s,
{
    lemma_crlf_identity(s);
    lemma_split_lines_trimmed(s);
    lemma_join_split(s, '\n');
    let l = crate::path::split_char(s, '\n');
    let m = l.map_values(|x: Seq<char>| trim_end(x));
    assert(m =~= l) by {
        assert forall|i: int| 0 <= i < l.len() implies m[i] == l[i] by {
            if i == l.len() - 1 && l.last().len() > 0 {
                assert(!crate::text::is_ws(l.last().last()));
                assert(l[i] == l.last());
            }
        }
    }
    crate::text::lemma_trim_ends(s);
    if s.len() == 0 {
        assert(trim(s) =~= s) by {
            reveal_with_fuel(crate::text::trim_start, 1);
            reveal_with_fuel(crate::text::trim_end, 1);
        }
    }
}

fn crlf_to_lf_vec(v: &Vec<char>) -> (r: Vec<char>)
    ensures
        r@ == crlf_to_lf(v@),
{
    let mut out: Vec<char> = Vec::new();
    let mut i: usize = 0;
    assert(v@.skip(0) =~= v@);
    while i < v.len()
        invariant
            i <= v.len(),
            out@ + crlf_to_lf(v@.skip(i as int)) == crlf_to_lf(v@),
        decreases v.len() - i,
    {
        let ghost rest = v@.skip(i as int);
        if i + 1 < v.len() && v[i] == '\r' && v[i + 1] == '\n' {
            assert(rest[0] == '\r' && rest[1] == '\n');
            assert(rest.skip(2) =~= v@.skip(i + 2));
            out.push('\n');
            assert(out@ + crlf_to_lf(v@.skip(i + 2)) =~= (out@.drop_last() + (seq!['\n']
                + crlf_to_lf(rest.skip(2)))));
            i = i + 2;
        } else {
            assert(rest[0] == v@[i as int]);
            assert(rest.drop_first() =~= v@.skip(i + 1));
            out.push(v[i]);
            assert(out@ + crlf_to_lf(v@.skip(i + 1)) =~= (out@.drop_last() + (seq![v@[i as int]]
                + crlf_to_lf(rest.drop_first()))));
            i = i + 1;
        }
    }
    assert(v@.skip(i as int) =~= Seq::<char>::empty());
    assert(out@ + Seq::<char>::empty() =~= out@);
    out
}

/// The prompt normalized for hashing (see [`l1_prompt`]).
pub fn normalize_prompt_for_l1(s: &str) -> (r: String)
    ensures
        r@ == l1_prompt(s@),
{
    let c = crlf_to_lf_vec(&chars_of(s));
    let pieces = crate::path::split_char_vec(&c, '\n');
    let ghost pv = crate::path::views(pieces@);
    let mut trimmed: Vec<Vec<char>> = Vec::new();
    let mut i: usize = 0;
    while i < pieces.len()
        invariant
            i <= pieces.len(),
            pv == crate::path::views(pieces@),
            crate::path::views(trimmed@) == pv.take(i as int).map_values(|l: Seq<char>| trim_end(l)),
        decreases pieces.len() - i,
    {
        let ghost before = trimmed@;
        trimmed.push(crate::text::trim_end_vec(&pieces[i]));
        assert(crate::path::views(trimmed@) =~= crate::path::views(before).push(
            trim_end(pieces@[i as int]@),
        ));
        assert(pv.take(i + 1).map_values(|l: Seq<char>| trim_end(l)) =~= pv.take(i as int).map_values(
            |l: Seq<char>| trim_end(l),
        ).push(trim_end(pv[i as int])));
        i = i + 1;
    }
    assert(pv.take(pieces.len() as int) =~= pv);
    let nl = vec!['\n'];
    assert(nl@ =~= seq!['\n']);
    string_of(&trim_vec(&crate::path::join_vec(&trimmed, &nl)))
}

/// The digest `std::collections::hash_map::DefaultHasher` computes over a
/// string (`str::hash`, then `Hasher::finish`).
pub uninterp spec fn prompt_digest(s: Seq<char>) -> u64;

/// Hashes a string with `DefaultHasher`. Claimed: the digest is a function
/// of the string alone.
#[verifier::external_body]
fn hash_str(s: &str) -> (h: u64)
    ensures
        h == prompt_digest(s@),
{
    let mut hasher = std::collections::hash_map::DefaultHasher::new();
    s.hash(&mut hasher);
    hasher.finish()
}

/// The digest of the normalized prompt.
pub fn hash_effective_prompt(s: &str) -> (h: u64)
    ensures
        h == prompt_digest(l1_prompt(s@)),
{
    let n = normalize_prompt_for_l1(s);
    hash_str(n.as_str())
}

/// The workspace a key is scoped to: the trimmed workspace setting, or
/// `default` when it is unset or blank.
pub open spec fn fingerprint(workspace: Option<Seq<char>>) -> Seq<char> {
    match workspace {
        Some(w) => if trim(w).len() > 0 {
            trim(w)
        } else {
            "default"@
        },
        None => "default"@,
    }
}

/// The workspace fingerprint of a key.
pub fn workspace_fingerprint(workspace: Option<&str>) -> (s: String)
    ensures
        s@ == fingerprint(
            match workspace {
                Some(w) => Some(w@),
                None => None,
            },
        ),
{
    match workspace {
        Some(w) => {
            let t = trim_vec(&chars_of(w));
            if t.len() > 0 {
                string_of(&t)
            } else {
                String::from_str("default")
            }
        },
        None => String::from_str("default"),
    }
}

/// Key for the exact (L1) response cache.
#[derive(Debug, Clone, Hash, PartialEq, Eq)]
pub struct L1Key {
    pub adapter: String,
    pub model: String,
    pub mode: String,
    pub prompt_hash: u64,
    pub schema: u32,
    pub workspace: String,
}

impl View for L1Key {
    type V = (Seq<char>, Seq<char>, Seq<char>, u64, u32, Seq<char>);

    open spec fn view(&self) -> Self::V {
        (self.adapter@, self.model@, self.mode@, self.prompt_hash, self.schema, self.workspace@)
    }
}

impl L1Key {
    /// A copy of the key.
    pub fn duplicate(&self) -> (r: L1Key)
        ensures
            r == *self,
    {
        L1Key {
            adapter: self.adapter.clone(),
            model: self.model.clone(),
            mode: self.mode.clone(),
            prompt_hash: self.prompt_hash,
            schema: self.schema,
            workspace: self.workspace.clone(),
        }
    }

    /// The key of a cacheable request: none under bypass or outside `ask`
    /// mode; the model defaults to the active mock model.
    pub fn try_new(
        runtime: RuntimeKind,
        model: &str,
        mode: &str,
        effective_prompt: &str,
        cache_bypass: bool,
        workspace: Option<&str>,
    ) -> (r: Option<L1Key>)
        ensures
            cache_bypass || mode_spec(mode@) != "ask"@ ==> r is None,
            !cache_bypass && mode_spec(mode@) == "ask"@ ==> (r matches Some(k) && k@ == (
                crate::adapters::runtime_label(runtime),
                if trim(model@).len() == 0 {
                    crate::domain::ACTIVE_MODEL_ID@
                } else {
                    trim(model@)
                },
                "ask"@,
                prompt_digest(l1_prompt(effective_prompt@)),
                L1_CACHE_SCHEMA,
                fingerprint(
                    match workspace {
                        Some(w) => Some(w@),
                        None => None,
                    },
                ),
            )),
    {
        if cache_bypass {
            return None;
        }
        let mode_n = normalize_mode(mode);
        if !crate::text::eq_vec(&chars_of(mode_n.as_str()), &chars_of("ask")) {
            return None;
        }
        let t = trim_vec(&chars_of(model));
        let model_id = if t.len() == 0 {
            String::from_str(crate::domain::ACTIVE_MODEL_ID)
        } else {
            string_of(&t)
        };
        let adapter = String::from_str(runtime.log_label());
        Some(
            L1Key {
                adapter,
                model: model_id,
                mode: mode_n,
                prompt_hash: hash_effective_prompt(effective_prompt),
                schema: L1_CACHE_SCHEMA,
                workspace: workspace_fingerprint(workspace),
            },
        )
    }
}

/// A stream result that may be kept: not empty, no error, ending with `done`.
pub open spec fn cachable(items: Seq<Result<StreamInferenceResponse, RpcStatus>>) -> bool {
    &&& items.len() > 0
    &&& forall|i: int| 0 <= i < items.len() ==> (#[trigger] items[i]) is Ok
    &&& items.last()->Ok_0.done
}

/// The chunks of a stream result worth keeping for a later L1 read.
pub fn l1_cachable_responses(items: &Vec<Result<StreamInferenceResponse, RpcStatus>>) -> (r: Option<
    Vec<StreamInferenceResponse>,
>)
    ensures
        cachable(items@) ==> (r matches Some(v) && v@.len() == items@.len() && forall|i: int|
            0 <= i < items@.len() ==> v@[i] == items@[i]->Ok_0),
        !cachable(items@) ==> r is None,
{
    if items.len() == 0 {
        return None;
    }
    let mut out: Vec<StreamInferenceResponse> = Vec::new();
    let mut i: usize = 0;
    while i < items.len()
        invariant
            i <= items.len(),
            out@.len() == i,
            forall|j: int| 0 <= j < i ==> (#[trigger] items@[j] is Ok && out@[j] == items@[j]->Ok_0),
        decreases items.len() - i,
    {
        let item = &items[i];
        match item {
            Ok(chunk) => {
                assert(items@[i as int] is Ok && items@[i as int]->Ok_0 == *chunk);
                let d = chunk.duplicate();
                assert(d == items@[i as int]->Ok_0);
                let ghost before = out@;
                out.push(d);
                assert(out@ == before.push(d));
                assert forall|j: int| 0 <= j < i + 1 implies (#[trigger] items@[j] is Ok && out@[j]
                    == items@[j]->Ok_0) by {
                    if j < i {
                        assert(out@[j] == before[j]);
                    }
                }
            },
            Err(_) => {
                return None;
            },
        }
        i = i + 1;
    }
    assert(out@[out@.len() - 1] == items@.last()->Ok_0);
    if !out[out.len() - 1].done {
        return None;
    }
    Some(out)
}


// ---------------------------------------------------------------------------
// The in-process response cache (an `lru` LRU cache)
// ---------------------------------------------------------------------------

#[verifier::external_type_specification]
#[verifier::external_body]
#[verifier::reject_recursive_types(K)]
#[verifier::reject_recursive_types(V)]
#[verifier::reject_recursive_types(S)]
pub struct ExLruCache<K, V, S>(lru::LruCache<K, V, S>);

#[verifier::external_type_specification]
#[verifier::external_body]
pub struct ExLruDefaultHasher(lru::DefaultHasher);

/// An LRU cache of stream results by key.
pub type L1Lru = lru::LruCache<L1Key, Vec<StreamInferenceResponse>>;

/// The view of a key, as the cache holds it.
pub type L1KeyView = (Seq<char>, Seq<char>, Seq<char>, u64, u32, Seq<char>);

/// What an LRU cache of stream results holds: key (by view) to chunks.
pub uninterp spec fn lru_entries(cache: L1Lru) -> Map<
    L1KeyView,
    Seq<StreamInferenceResponse>,
>;

/// The capacity an LRU cache was made with.
pub uninterp spec fn lru_capacity(cache: L1Lru) -> nat;

/// The keys of an LRU cache (by view) from the most recently used to the
/// least recently used: the order of the cache's list.
pub uninterp spec fn lru_order(cache: L1Lru) -> Seq<L1KeyView>;

/// The entries are finite and within the capacity.
pub open spec fn lru_bounded(cache: L1Lru) -> bool {
    lru_entries(cache).dom().finite() && lru_entries(cache).dom().len() <= lru_capacity(cache)
}

/// The recency list holds each stored key exactly once.
pub open spec fn lru_in_sync(cache: L1Lru) -> bool {
    &&& lru_order(cache).no_duplicates()
    &&& lru_order(cache).len() == lru_entries(cache).dom().len()
    &&& forall|k: L1KeyView| #[trigger] lru_order(cache).contains(k) <==> lru_entries(cache).dom().contains(k)
}

/// `order` with `key` moved to the front.
pub open spec fn to_front(order: Seq<L1KeyView>, key: L1KeyView) -> Seq<L1KeyView> {
    seq![key] + order.filter(|k: L1KeyView| k != key)
}

/// `lru::LruCache::new` with capacity `cap`: an empty cache.
#[verifier::external_body]
fn lru_new(cap: usize) -> (c: L1Lru)
    requires
        cap > 0,
    ensures
        lru_entries(c).dom().len() == 0,
        lru_entries(c).dom().finite(),
        lru_capacity(c) == cap,
        lru_order(c) == Seq::<L1KeyView>::empty(),
        lru_in_sync(c),
{
    lru::LruCache::new(std::num::NonZeroUsize::new(cap).expect("non-zero capacity"))
}

/// `lru::LruCache::get`, then a clone of the value: the entries stay the same;
/// a key that is present moves to the front of the recency list; the value
/// stored under the key is returned.
#[verifier::external_body]
fn lru_get(c: &mut L1Lru, key: &L1Key) -> (r: Option<
    Vec<StreamInferenceResponse>,
>)
    ensures
        lru_entries(*final(c)) == lru_entries(*old(c)),
        lru_capacity(*final(c)) == lru_capacity(*old(c)),
        lru_in_sync(*final(c)),
        lru_entries(*old(c)).dom().contains(key@) ==> lru_order(*final(c)) == to_front(
            lru_order(*old(c)),
            key@,
        ),
        !lru_entries(*old(c)).dom().contains(key@) ==> lru_order(*final(c)) == lru_order(*old(c)),
        lru_entries(*old(c)).dom().contains(key@) ==> (r matches Some(v) && v@ == lru_entries(
            *old(c),
        )[key@]),
        !lru_entries(*old(c)).dom().contains(key@) ==> r is None,
{
    c.get(key).cloned()
}

/// `lru::LruCache::put`: the key now holds the value and is the most recently
/// used; when the key is new and the cache is full, the least recently used
/// entry (the end of the recency list) is evicted.
#[verifier::external_body]
fn lru_put(
    c: &mut L1Lru,
    key: L1Key,
    value: Vec<StreamInferenceResponse>,
)
    ensures
        lru_capacity(*final(c)) == lru_capacity(*old(c)),
        lru_in_sync(*final(c)),
        lru_entries(*old(c)).dom().contains(key@) ==> lru_entries(*final(c)) == lru_entries(
            *old(c),
        ).insert(key@, value@) && lru_order(*final(c)) == to_front(lru_order(*old(c)), key@),
        !lru_entries(*old(c)).dom().contains(key@) && lru_entries(*old(c)).dom().len() < lru_capacity(
            *old(c),
        ) ==> lru_entries(*final(c)) == lru_entries(*old(c)).insert(key@, value@) && lru_order(
            *final(c),
        ) == seq![key@] + lru_order(*old(c)),
        !lru_entries(*old(c)).dom().contains(key@) && lru_entries(*old(c)).dom().len()
            >= lru_capacity(*old(c)) ==> lru_entries(*final(c)) == lru_entries(*old(c)).remove(
            lru_order(*old(c)).last(),
        ).insert(key@, value@) && lru_order(*final(c)) == seq![key@] + lru_order(
            *old(c),
        ).drop_last(),
{
    c.put(key, value);
}

/// The in-process exact response cache: at most 256 stream results, least
/// recently used evicted first.
pub struct L1ResponseCache {
    inner: L1Lru,
}

impl L1ResponseCache {
    /// The cached stream results by key.
    pub closed spec fn entries(&self) -> Map<L1KeyView, Seq<StreamInferenceResponse>> {
        lru_entries(self.inner)
    }

    /// The cached keys from the most recently used to the least recently used.
    pub closed spec fn recency(&self) -> Seq<L1KeyView> {
        lru_order(self.inner)
    }

    /// The cache invariant: finite, within its capacity of 256 entries, and
    /// each stored key once in the recency order.
    pub closed spec fn wf(&self) -> bool {
        &&& lru_bounded(self.inner)
        &&& lru_capacity(self.inner) == L1_MAX_ENTRIES
        &&& lru_in_sync(self.inner)
    }

    /// Every stored key is in the recency order once, and nothing else is.
    pub proof fn lemma_recency_matches(&self)
        requires
            self.wf(),
        ensures
            self.recency().no_duplicates(),
            self.recency().len() == self.entries().dom().len(),
            self.entries().dom().len() <= L1_MAX_ENTRIES,
            forall|k: L1KeyView| #[trigger] self.recency().contains(k) <==> self.entries().dom().contains(k),
    {
    }

    /// An empty cache.
    pub fn new() -> (c: Self)
        ensures
            c.wf(),
            c.entries() == Map::<L1KeyView, Seq<StreamInferenceResponse>>::empty(),
            c.recency() == Seq::<L1KeyView>::empty(),
    {
        let c = L1ResponseCache { inner: lru_new(L1_MAX_ENTRIES) };
        proof {
            let e = c.entries();
            assert(e.dom() =~= Set::<L1KeyView>::empty()) by {
                if exists|k: L1KeyView| e.dom().contains(k) {
                    let k = choose|k: L1KeyView| e.dom().contains(k);
                    vstd::set_lib::lemma_set_empty_equivalency_len(e.dom());
                }
            }
            assert(e =~= Map::<L1KeyView, Seq<StreamInferenceResponse>>::empty());
        }
        c
    }

    /// The stream result stored under `key`; a hit makes the key the most
    /// recently used.
    pub fn get(&mut self, key: &L1Key) -> (r: Option<Vec<StreamInferenceResponse>>)
        requires
            old(self).wf(),
        ensures
            final(self).wf(),
            final(self).entries() == old(self).entries(),
            final(self).recency() == if old(self).entries().dom().contains(key@) {
                to_front(old(self).recency(), key@)
            } else {
                old(self).recency()
            },
            old(self).entries().dom().contains(key@) ==> (r matches Some(v) && v@ == old(
                self,
            ).entries()[key@]),
            !old(self).entries().dom().contains(key@) ==> r is None,
    {
        lru_get(&mut self.inner, key)
    }

    /// Store a stream result under `key`; a read of the key then gives it back.
    /// The key becomes the most recently used; a new key in a full cache
    /// evicts the least recently used entry.
    pub fn put(&mut self, key: L1Key, value: Vec<StreamInferenceResponse>)
        requires
            old(self).wf(),
        ensures
            final(self).wf(),
            final(self).entries().dom().contains(key@),
            final(self).entries()[key@] == value@,
            forall|k: L1KeyView|
                #[trigger] final(self).entries().dom().contains(k) && k != key@ ==> old(
                    self,
                ).entries().dom().contains(k) && final(self).entries()[k] == old(self).entries()[k],
            old(self).entries().dom().contains(key@) ==> final(self).entries() == old(
                self,
            ).entries().insert(key@, value@) && final(self).recency() == to_front(
                old(self).recency(),
                key@,
            ),
            !old(self).entries().dom().contains(key@) && old(self).entries().dom().len()
                < L1_MAX_ENTRIES ==> final(self).entries() == old(self).entries().insert(key@, value@)
                && final(self).recency() == seq![key@] + old(self).recency(),
            !old(self).entries().dom().contains(key@) && old(self).entries().dom().len()
                >= L1_MAX_ENTRIES ==> final(self).entries() == old(self).entries().remove(
                old(self).recency().last(),
            ).insert(key@, value@) && final(self).recency() == seq![key@] + old(
                self,
            ).recency().drop_last(),
    {
        let ghost old_entries = self.entries();
        let ghost old_order = self.recency();
        let ghost kv = key@;
        let ghost vv = value@;
        lru_put(&mut self.inner, key, value);
        proof {
            let e = self.entries();
            if old_entries.dom().contains(kv) || old_entries.dom().len() < L1_MAX_ENTRIES {
                assert(e == old_entries.insert(kv, vv));
                if !old_entries.dom().contains(kv) {
                    assert(e.dom() =~= old_entries.dom().insert(kv));
                } else {
                    assert(e.dom() =~= old_entries.dom());
                }
            } else {
                let k0 = old_order.last();
                assert(old_order.len() > 0);
                assert(old_order.contains(k0)) by {
                    assert(old_order[old_order.len() - 1] == k0);
                }
                assert(old_entries.dom().contains(k0));
                assert(e.dom() =~= old_entries.dom().remove(k0).insert(kv));
            }
        }
    }
}

} // verus!
