//! Per-request cache policy: one decision, taken before any cache access or
//! runtime call, says whether the response cache is consulted (and under
//! which key), skipped, or not eligible.
use vstd::prelude::*;

use crate::adapters::{RuntimeKind, StreamInferenceResponse};
use crate::l1_cache::{
    fingerprint, l1_prompt, mode_spec, prompt_digest, L1Key, L1KeyView, L1ResponseCache, L1_CACHE_SCHEMA,
};
use crate::text::trim;

verus! {

/// Inputs to a per-request cache decision.
#[derive(Debug, Clone)]
pub struct PolicyRequest<'a> {
    pub runtime: RuntimeKind,
    pub model: &'a str,
    pub mode: &'a str,
    pub effective_prompt: &'a str,
    pub cache_bypass: bool,
    /// The configured workspace (scopes the cache key).
    pub workspace: Option<&'a str>,
}

/// Reasons a request is not eligible for the cache.
#[derive(Debug, Clone, Copy, PartialEq, Eq, Structural)]
pub enum UncacheableReason {
    /// Modes other than `ask` are not cached.
    NonAskMode,
}

/// What to do with response caching for one request.
#[derive(Debug, Clone, PartialEq, Eq)]
pub enum CacheDecision {
    /// Consult the cache with this key; on a miss run the runtime and store a
    /// cachable result.
    Lookup(L1Key),
    /// Skip the cache entirely.
    Bypass,
    /// Not eligible: run the runtime, store nothing.
    Uncacheable { reason: UncacheableReason },
}

/// The key of a lookup for a runtime, model, effective prompt and workspace.
pub open spec fn key_view_for(
    runtime: RuntimeKind,
    model: Seq<char>,
    effective_prompt: Seq<char>,
    workspace: Option<Seq<char>>,
) -> crate::l1_cache::L1KeyView {
    (
        crate::adapters::runtime_label(runtime),
        if trim(model).len() == 0 {
            crate::domain::ACTIVE_MODEL_ID@
        } else {
            trim(model)
        },
        "ask"@,
        prompt_digest(l1_prompt(effective_prompt)),
        L1_CACHE_SCHEMA,
        fingerprint(workspace),
    )
}

/// The key a lookup decision carries for `req`.
pub open spec fn lookup_key(req: PolicyRequest) -> crate::l1_cache::L1KeyView {
    key_view_for(
        req.runtime,
        req.model@,
        req.effective_prompt@,
        match req.workspace {
            Some(w) => Some(w@),
            None => None,
        },
    )
}

/// Resolve a request to its cache decision: bypass wins, then only `ask`
/// mode (an empty mode counts as `ask`) is looked up.
pub fn decide(req: &PolicyRequest) -> (d: CacheDecision)
    ensures
        req.cache_bypass ==> d == CacheDecision::Bypass,
        !req.cache_bypass && mode_spec(req.mode@) == "ask"@ ==> (d matches CacheDecision::Lookup(k)
            && k@ == lookup_key(*req)),
        !req.cache_bypass && mode_spec(req.mode@) != "ask"@ ==> d == (CacheDecision::Uncacheable {
            reason: UncacheableReason::NonAskMode,
        }),
{
    if req.cache_bypass {
        return CacheDecision::Bypass;
    }
    match L1Key::try_new(req.runtime, req.model, req.mode, req.effective_prompt, false, req.workspace) {
        Some(key) => CacheDecision::Lookup(key),
        None => CacheDecision::Uncacheable { reason: UncacheableReason::NonAskMode },
    }
}

/// The model of a cache read's result.
pub open spec fn opt_seq(r: Option<Vec<StreamInferenceResponse>>) -> Option<Seq<StreamInferenceResponse>> {
    match r {
        Some(v) => Some(v@),
        None => None,
    }
}

/// A response cache layer. A layer whose reads are modeled answers a read
/// with what it holds under the key and changes nothing it holds; layers
/// written outside the library keep the defaults (always ready, not modeled).
pub trait ResponseCache: Sized {
    /// `after` is this layer after a read of `key` that answered `r`; a
    /// layer that says nothing more allows any such read.
    open spec fn read_to(&self, key: L1KeyView, r: Option<Seq<StreamInferenceResponse>>, after: Self) -> bool {
        true
    }

    /// `after` is this layer after a write of `value` under `key`; a layer
    /// that says nothing more allows any such write.
    open spec fn write_to(&self, key: L1KeyView, value: Seq<StreamInferenceResponse>, after: Self) -> bool {
        true
    }

    /// The layer can be used.
    open spec fn layer_ready(&self) -> bool {
        true
    }

    /// The layer's reads follow [`ResponseCache::cached`].
    open spec fn modeled(&self) -> bool {
        false
    }

    /// What the layer holds under a key.
    open spec fn cached(&self, key: L1KeyView) -> Option<Seq<StreamInferenceResponse>> {
        None
    }

    /// A write to the layer is held by it.
    open spec fn stores(&self) -> bool {
        false
    }

    fn get(&mut self, key: &L1Key) -> (r: Option<Vec<StreamInferenceResponse>>)
        requires
            old(self).layer_ready(),
        ensures
            final(self).layer_ready(),
            final(self).modeled() == old(self).modeled(),
            final(self).stores() == old(self).stores(),
            old(self).modeled() ==> opt_seq(r) == old(self).cached(key@),
            old(self).modeled() ==> forall|k: L1KeyView| #[trigger] final(self).cached(k) == old(self).cached(k),
            old(self).read_to(key@, opt_seq(r), *final(self)),
    ;

    fn put(&mut self, key: L1Key, value: Vec<StreamInferenceResponse>)
        requires
            old(self).layer_ready(),
        ensures
            final(self).layer_ready(),
            final(self).modeled() == old(self).modeled(),
            final(self).stores() == old(self).stores(),
            old(self).stores() ==> final(self).cached(key@) == Some(value@),
            old(self).modeled() ==> forall|k: L1KeyView|
                k != key@ && (#[trigger] final(self).cached(k)) is Some ==> old(self).cached(k) is Some,
            old(self).write_to(key@, value@, *final(self)),
    ;
}

/// A read of `key` from the L1 cache: it answers what it holds, keeps its
/// entries, and a hit makes the key the most recently used.
pub open spec fn l1_read(
    before: L1ResponseCache,
    key: L1KeyView,
    r: Option<Seq<StreamInferenceResponse>>,
    after: L1ResponseCache,
) -> bool {
    let held = before.entries().dom().contains(key);
    &&& r == (if held {
        Some(before.entries()[key])
    } else {
        None
    })
    &&& after.entries() == before.entries()
    &&& after.recency() == (if held {
        crate::l1_cache::to_front(before.recency(), key)
    } else {
        before.recency()
    })
}

/// A write to the L1 cache: the key holds the value and is the most recently
/// used; a new key in a full cache evicts the least recently used one.
pub open spec fn l1_write(
    before: L1ResponseCache,
    key: L1KeyView,
    value: Seq<StreamInferenceResponse>,
    after: L1ResponseCache,
) -> bool {
    let e = before.entries();
    if e.dom().contains(key) {
        after.entries() == e.insert(key, value) && after.recency() == crate::l1_cache::to_front(
            before.recency(),
            key,
        )
    } else if e.dom().len() < crate::l1_cache::L1_MAX_ENTRIES {
        after.entries() == e.insert(key, value) && after.recency() == seq![key] + before.recency()
    } else {
        after.entries() == e.remove(before.recency().last()).insert(key, value) && after.recency() == seq![key]
            + before.recency().drop_last()
    }
}

/// The slot for a second cache layer: always a miss, stores nothing.
#[derive(Debug, Clone, Copy)]
pub struct NullL2;

impl ResponseCache for NullL2 {
    open spec fn read_to(&self, key: L1KeyView, r: Option<Seq<StreamInferenceResponse>>, after: Self) -> bool {
        r is None && after == *self
    }

    open spec fn write_to(&self, key: L1KeyView, value: Seq<StreamInferenceResponse>, after: Self) -> bool {
        after == *self
    }

    open spec fn layer_ready(&self) -> bool {
        true
    }

    open spec fn modeled(&self) -> bool {
        true
    }

    open spec fn cached(&self, key: L1KeyView) -> Option<Seq<StreamInferenceResponse>> {
        None
    }

    fn get(&mut self, key: &L1Key) -> (r: Option<Vec<StreamInferenceResponse>>)
        ensures
            r is None,
    {
        None
    }

    fn put(&mut self, key: L1Key, value: Vec<StreamInferenceResponse>) {
    }
}

impl ResponseCache for L1ResponseCache {
    open spec fn read_to(&self, key: L1KeyView, r: Option<Seq<StreamInferenceResponse>>, after: Self) -> bool {
        l1_read(*self, key, r, after)
    }

    open spec fn write_to(&self, key: L1KeyView, value: Seq<StreamInferenceResponse>, after: Self) -> bool {
        l1_write(*self, key, value, after)
    }

    open spec fn layer_ready(&self) -> bool {
        self.wf()
    }

    open spec fn modeled(&self) -> bool {
        true
    }

    open spec fn stores(&self) -> bool {
        true
    }

    open spec fn cached(&self, key: L1KeyView) -> Option<Seq<StreamInferenceResponse>> {
        if self.entries().dom().contains(key) {
            Some(self.entries()[key])
        } else {
            None
        }
    }

    fn get(&mut self, key: &L1Key) -> (r: Option<Vec<StreamInferenceResponse>>) {
        L1ResponseCache::get(self, key)
    }

    fn put(&mut self, key: L1Key, value: Vec<StreamInferenceResponse>)
        ensures
            final(self).entries().dom().contains(key@),
            final(self).entries()[key@] == value@,
            forall|k: L1KeyView|
                k != key@ && (#[trigger] final(self).cached(k)) is Some ==> final(self).cached(k)
                    == old(self).cached(k),
    {
        L1ResponseCache::put(self, key, value)
    }
}

/// The daemon's own cache layers.
pub enum StandardLayer {
    L1(L1ResponseCache),
    L2(NullL2),
}

impl ResponseCache for StandardLayer {
    open spec fn read_to(&self, key: L1KeyView, r: Option<Seq<StreamInferenceResponse>>, after: Self) -> bool {
        match (*self, after) {
            (StandardLayer::L1(a), StandardLayer::L1(b)) => a.read_to(key, r, b),
            (StandardLayer::L2(a), StandardLayer::L2(b)) => a.read_to(key, r, b),
            _ => false,
        }
    }

    open spec fn write_to(&self, key: L1KeyView, value: Seq<StreamInferenceResponse>, after: Self) -> bool {
        match (*self, after) {
            (StandardLayer::L1(a), StandardLayer::L1(b)) => a.write_to(key, value, b),
            (StandardLayer::L2(a), StandardLayer::L2(b)) => a.write_to(key, value, b),
            _ => false,
        }
    }

    open spec fn layer_ready(&self) -> bool {
        match self {
            StandardLayer::L1(c) => c.layer_ready(),
            StandardLayer::L2(c) => c.layer_ready(),
        }
    }

    open spec fn modeled(&self) -> bool {
        true
    }

    open spec fn cached(&self, key: L1KeyView) -> Option<Seq<StreamInferenceResponse>> {
        match self {
            StandardLayer::L1(c) => c.cached(key),
            StandardLayer::L2(c) => c.cached(key),
        }
    }

    open spec fn stores(&self) -> bool {
        self is L1
    }

    fn get(&mut self, key: &L1Key) -> (r: Option<Vec<StreamInferenceResponse>>) {
        match self {
            StandardLayer::L1(c) => c.get(key),
            StandardLayer::L2(c) => c.get(key),
        }
    }

    fn put(&mut self, key: L1Key, value: Vec<StreamInferenceResponse>) {
        match self {
            StandardLayer::L1(c) => c.put(key, value),
            StandardLayer::L2(c) => c.put(key, value),
        }
    }
}

/// What the first layer holding the key holds.
pub open spec fn first_hit<C: ResponseCache>(layers: Seq<C>, key: L1KeyView) -> Option<
    Seq<StreamInferenceResponse>,
>
    decreases layers.len(),
{
    if layers.len() == 0 {
        None
    } else {
        match layers[0].cached(key) {
            Some(v) => Some(v),
            None => first_hit(layers.drop_first(), key),
        }
    }
}

/// Every layer can be used.
pub open spec fn all_ready<C: ResponseCache>(layers: Seq<C>) -> bool {
    forall|i: int| 0 <= i < layers.len() ==> (#[trigger] layers[i]).layer_ready()
}

/// Every layer's reads are modeled.
pub open spec fn all_modeled<C: ResponseCache>(layers: Seq<C>) -> bool {
    forall|i: int| 0 <= i < layers.len() ==> (#[trigger] layers[i]).modeled()
}

/// Layers that hold the same things give the same first hit.
proof fn lemma_first_hit_congruent<C: ResponseCache>(a: Seq<C>, b: Seq<C>, k: L1KeyView)
    requires
        a.len() == b.len(),
        forall|i: int| 0 <= i < a.len() ==> #[trigger] a[i].cached(k) == b[i].cached(k),
    ensures
        first_hit(a, k) == first_hit(b, k),
    decreases a.len(),
{
    if a.len() > 0 {
        assert(a[0].cached(k) == b[0].cached(k));
        let (ra, rb) = (a.drop_first(), b.drop_first());
        assert forall|i: int| 0 <= i < ra.len() implies #[trigger] ra[i].cached(k) == rb[i].cached(k) by {
            assert(ra[i] == a[i + 1]);
            assert(rb[i] == b[i + 1]);
        }
        lemma_first_hit_congruent(ra, rb, k);
    }
}

proof fn lemma_modeled_same<C: ResponseCache>(a: Seq<C>, b: Seq<C>)
    requires
        a.len() == b.len(),
        forall|i: int| 0 <= i < a.len() ==> (#[trigger] a[i]).modeled() == b[i].modeled(),
    ensures
        all_modeled(a) == all_modeled(b),
{
    if all_modeled(a) {
        assert forall|i: int| 0 <= i < b.len() implies (#[trigger] b[i]).modeled() by {
            assert(a[i].modeled());
        }
    }
    if all_modeled(b) {
        assert forall|i: int| 0 <= i < a.len() implies (#[trigger] a[i]).modeled() by {
            assert(b[i].modeled());
        }
    }
}

/// When no layer gains a key, the stack does not gain it either.
proof fn lemma_first_hit_no_new<C: ResponseCache>(a: Seq<C>, b: Seq<C>, k: L1KeyView)
    requires
        a.len() == b.len(),
        forall|i: int| 0 <= i < a.len() && (#[trigger] b[i].cached(k)) is Some ==> a[i].cached(k) is Some,
    ensures
        first_hit(b, k) is Some ==> first_hit(a, k) is Some,
    decreases a.len(),
{
    if a.len() > 0 && b[0].cached(k) is None && a[0].cached(k) is None {
        let (ra, rb) = (a.drop_first(), b.drop_first());
        assert forall|i: int| 0 <= i < ra.len() && (#[trigger] rb[i].cached(k)) is Some implies ra[i].cached(k) is Some by {
            assert(ra[i] == a[i + 1]);
            assert(rb[i] == b[i + 1]);
        }
        lemma_first_hit_no_new(ra, rb, k);
    }
}

/// The layers before `j` each answered a read of `key` with a miss.
pub open spec fn layers_missed<C: ResponseCache>(before: Seq<C>, key: L1KeyView, after: Seq<C>, j: int) -> bool {
    forall|i: int| 0 <= i < j ==> #[trigger] before[i].read_to(key, None, after[i])
}

/// A read of `key` through the layers in order: every layer before the
/// answering one missed, the answering one gave `r`, and the layers after it
/// were not touched; when all missed, `r` is none.
pub open spec fn layered_read<C: ResponseCache>(
    before: Seq<C>,
    key: L1KeyView,
    r: Option<Seq<StreamInferenceResponse>>,
    after: Seq<C>,
) -> bool {
    &&& after.len() == before.len()
    &&& exists|j: int|
        0 <= j <= before.len() && #[trigger] layers_missed(before, key, after, j) && (forall|i: int|
            j < i < before.len() ==> after[i] == before[i]) && (j == before.len() ==> r is None) && (j
            < before.len() ==> r is Some && before[j].read_to(key, r, after[j]))
}

/// A write of `value` under `key` through every layer.
pub open spec fn layered_write<C: ResponseCache>(
    before: Seq<C>,
    key: L1KeyView,
    value: Seq<StreamInferenceResponse>,
    after: Seq<C>,
) -> bool {
    &&& after.len() == before.len()
    &&& forall|i: int| 0 <= i < before.len() ==> #[trigger] before[i].write_to(key, value, after[i])
}

/// Response cache layers consulted in order.
pub struct LayeredCache<C> {
    pub layers: Vec<C>,
}

impl<C: ResponseCache> LayeredCache<C> {
    /// A stack of layers, first consulted first.
    pub fn new(layers: Vec<C>) -> (c: Self)
        ensures
            c.layers@ == layers@,
    {
        LayeredCache { layers }
    }
}

impl<C: ResponseCache> ResponseCache for LayeredCache<C> {
    open spec fn read_to(&self, key: L1KeyView, r: Option<Seq<StreamInferenceResponse>>, after: Self) -> bool {
        layered_read(self.layers@, key, r, after.layers@)
    }

    open spec fn write_to(&self, key: L1KeyView, value: Seq<StreamInferenceResponse>, after: Self) -> bool {
        layered_write(self.layers@, key, value, after.layers@)
    }

    open spec fn layer_ready(&self) -> bool {
        all_ready(self.layers@)
    }

    open spec fn modeled(&self) -> bool {
        all_modeled(self.layers@)
    }

    open spec fn cached(&self, key: L1KeyView) -> Option<Seq<StreamInferenceResponse>> {
        first_hit(self.layers@, key)
    }

    open spec fn stores(&self) -> bool {
        self.layers@.len() > 0 && self.layers@[0].stores()
    }

    /// Read the key: the first layer that holds it answers, and the layers
    /// after it are not consulted.
    fn get(&mut self, key: &L1Key) -> (r: Option<Vec<StreamInferenceResponse>>)
        ensures
            final(self).layers@.len() == old(self).layers@.len(),
    {
        let ghost orig = self.layers@;
        let ghost modeled = all_modeled(orig);
        let mut i: usize = 0;
        assert(orig.skip(0) =~= orig);
        while i < self.layers.len()
            invariant
                orig == old(self).layers@,
                modeled == all_modeled(orig),
                i <= self.layers@.len(),
                self.layers@.len() == orig.len(),
                all_ready(self.layers@),
                forall|j: int| 0 <= j < orig.len() ==> (#[trigger] self.layers@[j]).modeled() == orig[j].modeled(),
                forall|j: int| 0 <= j < orig.len() ==> (#[trigger] self.layers@[j]).stores() == orig[j].stores(),
                modeled ==> forall|j: int, k: L1KeyView|
                    0 <= j < orig.len() ==> #[trigger] self.layers@[j].cached(k) == orig[j].cached(k),
                modeled ==> first_hit(orig, key@) == first_hit(orig.skip(i as int), key@),
                forall|j: int| 0 <= j < i ==> #[trigger] orig[j].read_to(key@, None, self.layers@[j]),
                forall|j: int| i <= j < orig.len() ==> self.layers@[j] == orig[j],
            decreases orig.len() - i,
        {
            let ghost before = self.layers@;
            let mut layer = self.layers.remove(i);
            assert(layer == orig[i as int]);
            let r = layer.get(key);
            self.layers.insert(i, layer);
            proof {
                assert(self.layers@ =~= before.update(i as int, self.layers@[i as int]));
                assert forall|j: int| 0 <= j < i + 1 && r is None implies #[trigger] orig[j].read_to(
                    key@,
                    None,
                    self.layers@[j],
                ) by {
                    if j != i {
                        assert(self.layers@[j] == before[j]);
                    }
                }
                assert forall|j: int| i < j < orig.len() implies self.layers@[j] == orig[j] by {
                    assert(self.layers@[j] == before[j]);
                }
                assert forall|j: int| 0 <= j < orig.len() implies (#[trigger] self.layers@[j]).modeled() == orig[j].modeled() by {
                    if j != i {
                        assert(self.layers@[j] == before[j]);
                    }
                }
                assert forall|j: int| 0 <= j < orig.len() implies (#[trigger] self.layers@[j]).stores() == orig[j].stores() by {
                    if j != i {
                        assert(self.layers@[j] == before[j]);
                    }
                }
                assert forall|j: int| 0 <= j < self.layers@.len() implies (#[trigger] self.layers@[j]).layer_ready() by {
                    if j != i {
                        assert(self.layers@[j] == before[j]);
                    }
                }
                if modeled {
                    assert(orig[i as int].modeled());
                    assert forall|j: int, k: L1KeyView| 0 <= j < orig.len() implies #[trigger] self.layers@[j].cached(k) == orig[j].cached(k) by {
                        if j != i {
                            assert(self.layers@[j] == before[j]);
                        }
                    }
                    assert(orig.skip(i as int)[0] == orig[i as int]);
                    assert(orig.skip(i as int).drop_first() =~= orig.skip(i + 1));
                }
            }
            if r.is_some() {
                proof {
                    assert forall|j: int| 0 <= j < i implies #[trigger] orig[j].read_to(key@, None, self.layers@[j]) by {
                        assert(self.layers@[j] == before[j]);
                    }
                    assert(layers_missed(orig, key@, self.layers@, i as int));
                    lemma_modeled_same(self.layers@, orig);
                    if modeled {
                        assert forall|k: L1KeyView| #[trigger] first_hit(self.layers@, k) == first_hit(orig, k) by {
                            lemma_first_hit_congruent(self.layers@, orig, k);
                        }
                    }
                }
                return r;
            }
            i = i + 1;
        }
        proof {
            assert(layers_missed(orig, key@, self.layers@, orig.len() as int));
            lemma_modeled_same(self.layers@, orig);
            assert(orig.skip(i as int).len() == 0);
            if modeled {
                assert forall|k: L1KeyView| #[trigger] first_hit(self.layers@, k) == first_hit(orig, k) by {
                    lemma_first_hit_congruent(self.layers@, orig, k);
                }
            }
        }
        None
    }

    /// Write the key through every layer, first to last; every layer that
    /// holds writes then holds the value.
    fn put(&mut self, key: L1Key, value: Vec<StreamInferenceResponse>)
        ensures
            final(self).layers@.len() == old(self).layers@.len(),
            forall|j: int|
                0 <= j < old(self).layers@.len() && (#[trigger] old(self).layers@[j]).stores()
                    ==> final(self).layers@[j].cached(key@) == Some(value@),
    {
        let mut i: usize = 0;
        let ghost orig = self.layers@;
        while i < self.layers.len()
            invariant
                i <= self.layers@.len(),
                self.layers@.len() == orig.len(),
                all_ready(self.layers@),
                forall|j: int| 0 <= j < orig.len() ==> (#[trigger] self.layers@[j]).modeled() == orig[j].modeled(),
                forall|j: int| 0 <= j < orig.len() ==> (#[trigger] self.layers@[j]).stores() == orig[j].stores(),
                forall|j: int|
                    0 <= j < i && (#[trigger] orig[j]).stores() ==> self.layers@[j].cached(key@) == Some(value@),
                all_modeled(orig) ==> forall|j: int, k: L1KeyView|
                    0 <= j < orig.len() && k != key@ && (#[trigger] self.layers@[j].cached(k)) is Some
                        ==> orig[j].cached(k) is Some,
                orig == old(self).layers@,
                forall|j: int| 0 <= j < i ==> #[trigger] orig[j].write_to(key@, value@, self.layers@[j]),
                forall|j: int| i <= j < orig.len() ==> self.layers@[j] == orig[j],
            decreases orig.len() - i,
        {
            let ghost before = self.layers@;
            let mut layer = self.layers.remove(i);
            assert(layer == orig[i as int]);
            layer.put(key.duplicate(), clone_responses(&value));
            self.layers.insert(i, layer);
            proof {
                assert(self.layers@ =~= before.update(i as int, self.layers@[i as int]));
                assert forall|j: int| 0 <= j < i + 1 implies #[trigger] orig[j].write_to(key@, value@, self.layers@[j]) by {
                    if j != i {
                        assert(self.layers@[j] == before[j]);
                    }
                }
                assert forall|j: int| i < j < orig.len() implies self.layers@[j] == orig[j] by {
                    assert(self.layers@[j] == before[j]);
                }
                assert forall|j: int| 0 <= j < self.layers@.len() implies (#[trigger] self.layers@[j]).layer_ready() by {
                    if j != i {
                        assert(self.layers@[j] == before[j]);
                    }
                }
                assert forall|j: int| 0 <= j < orig.len() implies (#[trigger] self.layers@[j]).modeled() == orig[j].modeled() by {
                    if j != i {
                        assert(self.layers@[j] == before[j]);
                    }
                }
                assert forall|j: int| 0 <= j < orig.len() implies (#[trigger] self.layers@[j]).stores() == orig[j].stores() by {
                    if j != i {
                        assert(self.layers@[j] == before[j]);
                    }
                }
                assert forall|j: int| 0 <= j < i + 1 && (#[trigger] orig[j]).stores() implies self.layers@[j].cached(key@) == Some(value@) by {
                    if j != i {
                        assert(self.layers@[j] == before[j]);
                    }
                }
                if all_modeled(orig) {
                    assert(orig[i as int].modeled());
                    assert forall|j: int, k: L1KeyView|
                        0 <= j < orig.len() && k != key@ && (#[trigger] self.layers@[j].cached(k)) is Some
                        implies orig[j].cached(k) is Some by {
                        if j != i {
                            assert(self.layers@[j] == before[j]);
                        } else {
                            assert(before[j].cached(k) is Some);
                        }
                    }
                }
            }
            i = i + 1;
        }
        proof {
            lemma_modeled_same(self.layers@, orig);
            if all_modeled(orig) {
                assert forall|k: L1KeyView|
                    k != key@ && (#[trigger] first_hit(self.layers@, k)) is Some implies first_hit(orig, k) is Some by {
                    lemma_first_hit_no_new(orig, self.layers@, k);
                }
            }
            if orig.len() > 0 && orig[0].stores() {
                reveal_with_fuel(first_hit, 1);
                assert(self.layers@[0].cached(key@) == Some(value@));
            }
        }
    }
}

/// Once a write went through a stack whose first layer holds writes, a read
/// of the key is answered with the value written.
pub proof fn law_write_through_then_read<C: ResponseCache>(layers: Seq<C>, key: L1KeyView, value: Seq<StreamInferenceResponse>)
    requires
        layers.len() > 0,
        layers[0].cached(key) == Some(value),
    ensures
        first_hit(layers, key) == Some(value),
{
}

/// A copy of a stream result.
fn clone_responses(v: &Vec<StreamInferenceResponse>) -> (r: Vec<StreamInferenceResponse>)
    ensures
        r@ == v@,
{
    let mut r: Vec<StreamInferenceResponse> = Vec::new();
    let mut i: usize = 0;
    while i < v.len()
        invariant
            i <= v.len(),
            r@ == v@.take(i as int),
        decreases v.len() - i,
    {
        r.push(v[i].duplicate());
        assert(r@ =~= v@.take(i + 1));
        i = i + 1;
    }
    assert(v@.take(v.len() as int) =~= v@);
    r
}

impl LayeredCache<StandardLayer> {
    /// The daemon's stack: the in-process L1 cache, then the L2 slot.
    pub fn default_l1_l2() -> (c: Self)
        ensures
            all_ready(c.layers@),
            all_modeled(c.layers@),
            c.layers@.len() == 2,
            c.layers@[0] is L1,
            c.layers@[1] is L2,
            forall|k: L1KeyView| #[trigger] first_hit(c.layers@, k) is None,
    {
        let l1 = L1ResponseCache::new();
        let ghost l1v = l1;
        let mut layers: Vec<StandardLayer> = Vec::new();
        layers.push(StandardLayer::L1(l1));
        layers.push(StandardLayer::L2(NullL2));
        let c = LayeredCache { layers };
        proof {
            assert(c.layers@[0] == StandardLayer::L1(l1v));
            assert forall|k: L1KeyView| #[trigger] first_hit(c.layers@, k) is None by {
                reveal_with_fuel(first_hit, 3);
                assert(!l1v.entries().dom().contains(k));
                assert(c.layers@.drop_first().drop_first().len() == 0);
                assert(c.layers@.drop_first()[0] == c.layers@[1]);
            }
        }
        c
    }
}

/// A decision is the one [`decide`] takes for the request.
pub open spec fn decision_matches(req: PolicyRequest, d: CacheDecision) -> bool {
    &&& req.cache_bypass ==> d == CacheDecision::Bypass
    &&& !req.cache_bypass && mode_spec(req.mode@) == "ask"@ ==> (d matches CacheDecision::Lookup(k)
        && k@ == lookup_key(req))
    &&& !req.cache_bypass && mode_spec(req.mode@) != "ask"@ ==> d == (CacheDecision::Uncacheable {
        reason: UncacheableReason::NonAskMode,
    })
}

/// The daemon's response cache behind one boundary: decisions are taken
/// without touching it; reads and writes go to it.
pub struct PolicyEngine<C> {
    pub cache: C,
}

impl<C: ResponseCache> PolicyEngine<C> {
    /// An engine over a cache.
    pub fn new(cache: C) -> (e: Self)
        ensures
            e.cache == cache,
    {
        PolicyEngine { cache }
    }

    /// The cache decision for a request; the cache is not consulted.
    pub fn decide(&self, req: &PolicyRequest) -> (d: CacheDecision)
        ensures
            decision_matches(*req, d),
    {
        decide(req)
    }

    /// Read from the cache.
    pub fn get(&mut self, key: &L1Key) -> (r: Option<Vec<StreamInferenceResponse>>)
        requires
            old(self).cache.layer_ready(),
        ensures
            final(self).cache.layer_ready(),
            final(self).cache.modeled() == old(self).cache.modeled(),
            final(self).cache.stores() == old(self).cache.stores(),
            old(self).cache.modeled() ==> opt_seq(r) == old(self).cache.cached(key@),
            old(self).cache.modeled() ==> forall|k: L1KeyView| #[trigger] final(self).cache.cached(k)
                == old(self).cache.cached(k),
            old(self).cache.read_to(key@, opt_seq(r), final(self).cache),
    {
        self.cache.get(key)
    }

    /// Write to the cache: a cache that holds writes then answers the key
    /// with the value, and no other key becomes readable.
    pub fn put(&mut self, key: L1Key, value: Vec<StreamInferenceResponse>)
        requires
            old(self).cache.layer_ready(),
        ensures
            final(self).cache.layer_ready(),
            final(self).cache.modeled() == old(self).cache.modeled(),
            final(self).cache.stores() == old(self).cache.stores(),
            old(self).cache.stores() ==> final(self).cache.cached(key@) == Some(value@),
            old(self).cache.modeled() ==> forall|k: L1KeyView|
                k != key@ && (#[trigger] final(self).cache.cached(k)) is Some ==> old(self).cache.cached(k) is Some,
            old(self).cache.write_to(key@, value@, final(self).cache),
    {
        self.cache.put(key, value)
    }
}

impl PolicyEngine<LayeredCache<StandardLayer>> {
    /// The daemon's engine: the L1 cache, then the L2 slot.
    pub fn with_default_layers() -> (e: Self)
        ensures
            e.cache.layer_ready(),
            e.cache.modeled(),
            forall|k: L1KeyView| #[trigger] e.cache.cached(k) is None,
    {
        PolicyEngine { cache: LayeredCache::default_l1_l2() }
    }
}

/// The observable per-request cache outcome.
#[derive(Debug, Clone, Copy, PartialEq, Eq, Structural)]
pub enum CacheDecisionState {
    /// A cacheable lookup served from the cache.
    Hit,
    /// A cacheable lookup missed; the runtime ran.
    MissStored,
    /// Operator bypass: the cache was neither read nor written.
    Bypass,
    /// The mode is not eligible for caching.
    UncacheableMode,
}

impl CacheDecisionState {
    /// The outcome of a decision and, for a lookup, whether it hit.
    pub open spec fn from_outcome_spec(decision: CacheDecision, hit: bool) -> CacheDecisionState {
        match decision {
            CacheDecision::Lookup(_) => if hit {
                CacheDecisionState::Hit
            } else {
                CacheDecisionState::MissStored
            },
            CacheDecision::Bypass => CacheDecisionState::Bypass,
            CacheDecision::Uncacheable { .. } => CacheDecisionState::UncacheableMode,
        }
    }

    /// The stable label of a state.
    pub open spec fn label_spec(self) -> Seq<char> {
        match self {
            CacheDecisionState::Hit => "hit"@,
            CacheDecisionState::MissStored => "miss_stored"@,
            CacheDecisionState::Bypass => "bypass"@,
            CacheDecisionState::UncacheableMode => "uncacheable_mode"@,
        }
    }

    /// Stable label used in daemon output.
    pub fn label(self) -> (s: &'static str)
        ensures
            s@ == self.label_spec(),
    {
        match self {
            CacheDecisionState::Hit => "hit",
            CacheDecisionState::MissStored => "miss_stored",
            CacheDecisionState::Bypass => "bypass",
            CacheDecisionState::UncacheableMode => "uncacheable_mode",
        }
    }

    /// The outcome of a decision and, for a lookup, whether it hit.
    pub fn from_outcome(decision: &CacheDecision, hit: bool) -> (s: Self)
        ensures
            s == Self::from_outcome_spec(*decision, hit),
    {
        match decision {
            CacheDecision::Lookup(_) => if hit {
                CacheDecisionState::Hit
            } else {
                CacheDecisionState::MissStored
            },
            CacheDecision::Bypass => CacheDecisionState::Bypass,
            CacheDecision::Uncacheable { reason: UncacheableReason::NonAskMode } => {
                CacheDecisionState::UncacheableMode
            },
        }
    }
}

} // verus!
