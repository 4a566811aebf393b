//! The sidecar observability service: the catalog of custom metrics a
//! sidecar registers, what a recorded point is published as, the economics
//! snapshot and span validation. The store and the tail feed are reached at
//! the edge of the program.
use vstd::prelude::*;

use crate::adapters::{RpcCode, RpcStatus};
use crate::broker::signed_decimal;
use crate::text::{chars_of, string_of, trim, trim_vec};

verus! {

/// A custom metric a sidecar registered.
#[derive(Debug, Clone)]
pub struct SidecarMetricDef {
    pub name: String,
    pub kind: String,
    pub unit: String,
    pub description: String,
    pub label_keys: Vec<String>,
}

/// A `RegisterMetric` request.
#[derive(Debug, Clone)]
pub struct RegisterMetricRequest {
    pub name: String,
    pub kind: String,
    pub unit: String,
    pub description: String,
    pub label_keys: Vec<String>,
}

/// A `RegisterMetric` answer.
#[derive(Debug, Clone)]
pub struct RegisterMetricResponse {
    pub ok: bool,
    pub instrument_name: String,
    pub error: String,
}

/// The registered custom metrics, one per name.
#[derive(Debug)]
pub struct CustomMetricCatalog {
    pub defs: Vec<SidecarMetricDef>,
}

/// The names of a list of definitions.
pub open spec fn def_names(defs: Seq<SidecarMetricDef>) -> Seq<Seq<char>> {
    defs.map_values(|d: SidecarMetricDef| d.name@)
}

/// No name occurs twice.
pub open spec fn names_unique(names: Seq<Seq<char>>) -> bool {
    forall|i: int, j: int| 0 <= i < j < names.len() ==> names[i] != names[j]
}

/// The instrument a custom metric is published on.
pub open spec fn custom_instrument(name: Seq<char>) -> Seq<char> {
    "rex.sidecar.custom."@ + name
}

impl CustomMetricCatalog {
    /// The catalog's invariant: one definition per name.
    pub open spec fn wf(&self) -> bool {
        names_unique(def_names(self.defs@))
    }

    /// The registered names.
    pub open spec fn names(&self) -> Set<Seq<char>> {
        def_names(self.defs@).to_set()
    }

    /// An empty catalog.
    pub fn new() -> (c: Self)
        ensures
            c.wf(),
            c.names() == Set::<Seq<char>>::empty(),
    {
        let c = CustomMetricCatalog { defs: Vec::new() };
        assert(def_names(c.defs@) =~= Seq::<Seq<char>>::empty());
        assert(c.names() =~= Set::<Seq<char>>::empty());
        c
    }

    /// The position of the definition named `name`.
    fn position(&self, name: &str) -> (r: Option<usize>)
        ensures
            match r {
                Some(i) => i < self.defs@.len() && self.defs@[i as int].name@ == name@,
                None => !def_names(self.defs@).contains(name@),
            },
    {
        let n = chars_of(name);
        let mut i: usize = 0;
        while i < self.defs.len()
            invariant
                i <= self.defs.len(),
                n@ == name@,
                forall|k: int| 0 <= k < i ==> (#[trigger] self.defs@[k]).name@ != name@,
            decreases self.defs.len() - i,
        {
            if crate::text::eq_vec(&chars_of(self.defs[i].name.as_str()), &n) {
                return Some(i);
            }
            i = i + 1;
        }
        proof {
            if def_names(self.defs@).contains(name@) {
                let k = choose|k: int| 0 <= k < def_names(self.defs@).len() && def_names(self.defs@)[k] == name@;
                assert(self.defs@[k].name@ == name@);
            }
        }
        None
    }

    /// Whether a metric of that name is registered.
    pub fn contains(&self, name: &str) -> (b: bool)
        ensures
            b == self.names().contains(name@),
    {
        let r = self.position(name);
        proof {
            if r is Some {
                assert(def_names(self.defs@)[r->Some_0 as int] == name@);
            }
        }
        r.is_some()
    }

    /// Register a definition, replacing one of the same name.
    pub fn insert(&mut self, def: SidecarMetricDef)
        requires
            old(self).wf(),
        ensures
            final(self).wf(),
            final(self).names() == old(self).names().insert(def.name@),
            exists|i: int| 0 <= i < final(self).defs@.len() && #[trigger] final(self).defs@[i] == def,
    {
        let ghost old_names = def_names(self.defs@);
        let ghost dn = def.name@;
        match self.position(def.name.as_str()) {
            Some(i) => {
                self.defs.set(i, def);
                proof {
                    assert(def_names(self.defs@) =~= old_names.update(i as int, dn));
                    assert(def_names(self.defs@) =~= old_names);
                    assert(def_names(self.defs@).to_set() =~= old_names.to_set().insert(dn)) by {
                        assert forall|x: Seq<char>| def_names(self.defs@).to_set().contains(x) <==> old_names.to_set().insert(dn).contains(x) by {
                            if old_names.contains(x) && x != dn {
                                let k = choose|k: int| 0 <= k < old_names.len() && old_names[k] == x;
                                assert(def_names(self.defs@)[k] == x);
                            }
                            if x == dn {
                                assert(def_names(self.defs@)[i as int] == dn);
                            }
                            if def_names(self.defs@).contains(x) {
                                let k = choose|k: int| 0 <= k < def_names(self.defs@).len() && def_names(self.defs@)[k] == x;
                                if k != i {
                                    assert(old_names[k] == x);
                                }
                            }
                        }
                    }
                    assert(self.defs@[i as int] == def);
                }
            },
            None => {
                self.defs.push(def);
                proof {
                    assert(def_names(self.defs@) =~= old_names.push(dn));
                    assert forall|a: int, b: int| 0 <= a < b < def_names(self.defs@).len() implies def_names(self.defs@)[a] != def_names(self.defs@)[b] by {
                        if b == old_names.len() {
                            assert(old_names[a] != dn);
                        }
                    }
                    assert(def_names(self.defs@).to_set() =~= old_names.to_set().insert(dn)) by {
                        assert forall|x: Seq<char>| def_names(self.defs@).to_set().contains(x) <==> old_names.to_set().insert(dn).contains(x) by {
                            if old_names.contains(x) {
                                let k = choose|k: int| 0 <= k < old_names.len() && old_names[k] == x;
                                assert(def_names(self.defs@)[k] == x);
                            }
                            if x == dn {
                                assert(def_names(self.defs@)[old_names.len() as int] == dn);
                            }
                            if def_names(self.defs@).contains(x) {
                                let k = choose|k: int| 0 <= k < def_names(self.defs@).len() && def_names(self.defs@)[k] == x;
                                if k < old_names.len() {
                                    assert(old_names[k] == x);
                                }
                            }
                        }
                    }
                    assert(self.defs@[self.defs@.len() - 1] == def);
                }
            },
        }
    }
}

/// Register a custom metric: refused while custom metrics are off or
/// without a name; otherwise the definition (kind `counter` when none is
/// given) is kept and its instrument name returned. The definition to
/// persist comes back with an accepted answer.
pub fn register_metric(
    catalog: &mut CustomMetricCatalog,
    custom_metrics_enabled: bool,
    request: RegisterMetricRequest,
) -> (r: (RegisterMetricResponse, Option<SidecarMetricDef>))
    requires
        old(catalog).wf(),
    ensures
        final(catalog).wf(),
        !custom_metrics_enabled ==> !r.0.ok && r.0.error@ == "custom_sidecar_metrics disabled"@
            && r.0.instrument_name@ == Seq::<char>::empty() && r.1 is None && final(catalog).names()
            == old(catalog).names(),
        custom_metrics_enabled && trim(request.name@).len() == 0 ==> !r.0.ok && r.0.error@
            == "metric name required"@ && r.0.instrument_name@ == Seq::<char>::empty() && r.1 is None
            && final(catalog).names() == old(catalog).names(),
        custom_metrics_enabled && trim(request.name@).len() > 0 ==> ({
            &&& r.0.ok
            &&& r.0.error@ == Seq::<char>::empty()
            &&& r.0.instrument_name@ == custom_instrument(request.name@)
            &&& final(catalog).names() == old(catalog).names().insert(request.name@)
            &&& r.1 matches Some(def) && def.name == request.name && def.unit == request.unit
                && def.description == request.description && def.label_keys == request.label_keys
                && def.kind@ == if request.kind@.len() == 0 {
                "counter"@
            } else {
                request.kind@
            }
        }),
{
    if !custom_metrics_enabled {
        return (
            RegisterMetricResponse {
                ok: false,
                instrument_name: String::new(),
                error: String::from_str("custom_sidecar_metrics disabled"),
            },
            None,
        );
    }
    if trim_vec(&chars_of(request.name.as_str())).len() == 0 {
        return (
            RegisterMetricResponse {
                ok: false,
                instrument_name: String::new(),
                error: String::from_str("metric name required"),
            },
            None,
        );
    }
    let instrument_name = String::from_str("rex.sidecar.custom.").concat(request.name.as_str());
    let kind = if chars_of(request.kind.as_str()).len() == 0 {
        String::from_str("counter")
    } else {
        request.kind
    };
    let def = SidecarMetricDef {
        name: request.name,
        kind,
        unit: request.unit,
        description: request.description,
        label_keys: request.label_keys,
    };
    let stored = SidecarMetricDef {
        name: def.name.clone(),
        kind: def.kind.clone(),
        unit: def.unit.clone(),
        description: def.description.clone(),
        label_keys: clone_strings(&def.label_keys),
    };
    catalog.insert(stored);
    (RegisterMetricResponse { ok: true, instrument_name, error: String::new() }, Some(def))
}

/// A copy of a list of strings.
fn clone_strings(v: &Vec<String>) -> (r: Vec<String>)
    ensures
        r@ == v@,
{
    let mut r: Vec<String> = Vec::new();
    let mut i: usize = 0;
    while i < v.len()
        invariant
            i <= v.len(),
            r@ == v@.take(i as int),
        decreases v.len() - i,
    {
        r.push(v[i].clone());
        assert(r@ =~= v@.take(i + 1));
        i = i + 1;
    }
    assert(v@.take(v.len() as int) =~= v@);
    r
}

/// Where and when a recorded custom point is published.
#[derive(Debug, Clone)]
pub struct PublishedPoint {
    pub timestamp_ms: i64,
    pub instrument: String,
    /// `timeUnixNano` of the data point, as decimal text.
    pub time_unix_nano: String,
}

/// A timestamp in nanoseconds, saturating.
pub open spec fn nanos_of(ms: i64) -> i64 {
    if ms * 1_000_000 > i64::MAX {
        i64::MAX
    } else if ms * 1_000_000 < i64::MIN {
        i64::MIN
    } else {
        (ms * 1_000_000) as i64
    }
}

/// Decimal text of an `i64`.
fn i64_decimal(i: i64) -> (r: String)
    ensures
        r@ == signed_decimal(i as int),
{
    if i < 0 {
        let m: i128 = -(i as i128);
        let mut v = vec!['-'];
        crate::text::append_vec(&mut v, &crate::text::decimal_vec(m as u64));
        string_of(&v)
    } else {
        string_of(&crate::text::decimal_vec(i as u64))
    }
}

/// Record a point on a custom metric: refused while custom metrics are off
/// or when the metric is not registered; otherwise published on its
/// instrument at the given time, or now when none is given.
pub fn record_metric(
    catalog: &CustomMetricCatalog,
    custom_metrics_enabled: bool,
    name: &str,
    timestamp_ms: i64,
    now_ms: i64,
) -> (r: Result<PublishedPoint, String>)
    ensures
        !custom_metrics_enabled ==> (r matches Err(e) && e@ == "custom_sidecar_metrics disabled"@),
        custom_metrics_enabled && !catalog.names().contains(name@) ==> (r matches Err(e) && e@
            == "metric `"@ + name@ + "` not registered"@),
        custom_metrics_enabled && catalog.names().contains(name@) ==> ({
            let ts = if timestamp_ms > 0 {
                timestamp_ms
            } else {
                now_ms
            };
            &&& r matches Ok(p)
            &&& r->Ok_0.timestamp_ms == ts
            &&& r->Ok_0.instrument@ == custom_instrument(name@)
            &&& r->Ok_0.time_unix_nano@ == signed_decimal(nanos_of(ts) as int)
        }),
{
    if !custom_metrics_enabled {
        return Err(String::from_str("custom_sidecar_metrics disabled"));
    }
    if !catalog.contains(name) {
        let msg = String::from_str("metric `").concat(name);
        return Err(msg.concat("` not registered"));
    }
    let ts = if timestamp_ms > 0 {
        timestamp_ms
    } else {
        now_ms
    };
    let nanos: i64 = if ts > i64::MAX / 1_000_000 {
        i64::MAX
    } else if ts < i64::MIN / 1_000_000 {
        i64::MIN
    } else {
        ts * 1_000_000
    };
    Ok(
        PublishedPoint {
            timestamp_ms: ts,
            instrument: String::from_str("rex.sidecar.custom.").concat(name),
            time_unix_nano: i64_decimal(nanos),
        },
    )
}

/// One stored stream as the snapshot reads it.
#[derive(Debug, Clone, PartialEq, Eq)]
pub struct EconomicsSummary {
    pub request_id: u64,
    pub trace_id: String,
    pub terminal: String,
    pub created_at_ms: i64,
    pub route: String,
}

/// The snapshot's size: the requested limit within 1 to 100.
pub open spec fn snapshot_limit(limit: i32) -> nat {
    if limit < 1 {
        1
    } else if limit > 100 {
        100
    } else {
        limit as nat
    }
}

/// The newest streams first, at most `limit` of them (the stored rows are
/// oldest first).
pub open spec fn newest_first(rows: Seq<EconomicsSummary>, limit: nat) -> Seq<EconomicsSummary> {
    let n = if rows.len() < limit {
        rows.len()
    } else {
        limit
    };
    Seq::new(n, |i: int| rows[rows.len() - 1 - i])
}

/// The economics snapshot of the stored streams.
pub fn economics_snapshot(rows: &Vec<EconomicsSummary>, limit: i32) -> (r: Vec<EconomicsSummary>)
    ensures
        r@ == newest_first(rows@, snapshot_limit(limit)),
{
    let lim: usize = if limit < 1 {
        1
    } else if limit > 100 {
        100
    } else {
        limit as usize
    };
    let n = if rows.len() < lim {
        rows.len()
    } else {
        lim
    };
    let mut r: Vec<EconomicsSummary> = Vec::new();
    let mut i: usize = 0;
    while i < n
        invariant
            i <= n,
            n <= rows.len(),
            n == if rows@.len() < snapshot_limit(limit) {
                rows@.len()
            } else {
                snapshot_limit(limit)
            },
            r@.len() == i,
            forall|k: int| 0 <= k < i ==> #[trigger] r@[k] == rows@[rows@.len() - 1 - k],
        decreases n - i,
    {
        let x = &rows[rows.len() - 1 - i];
        r.push(
            EconomicsSummary {
                request_id: x.request_id,
                trace_id: x.trace_id.clone(),
                terminal: x.terminal.clone(),
                created_at_ms: x.created_at_ms,
                route: x.route.clone(),
            },
        );
        i = i + 1;
    }
    assert(r@ =~= newest_first(rows@, snapshot_limit(limit)));
    r
}

/// An `AppendSpan` request.
#[derive(Debug, Clone)]
pub struct AppendSpanRequest {
    pub trace_id: String,
    pub turn_id: String,
    pub span_name: String,
    pub parent_span_id: String,
    pub start_ms: i64,
    pub end_ms: i64,
}

/// A span as stored.
#[derive(Debug, Clone)]
pub struct SpanRecord {
    pub trace_id: String,
    pub turn_id: String,
    pub span_name: String,
    pub parent_span_id: Option<String>,
    pub start_ms: i64,
    pub end_ms: Option<i64>,
    pub attributes_json: String,
}

/// The span to store for a request, or the refusal when its trace id or
/// span name is blank; an empty parent and a zero end are absent.
pub fn span_record(request: AppendSpanRequest, attributes_json: String) -> (r: Result<
    SpanRecord,
    String,
>)
    ensures
        (trim(request.trace_id@).len() == 0 || trim(request.span_name@).len() == 0) <==> r is Err,
        r matches Err(e) ==> e@ == "trace_id and span_name required"@,
        r matches Ok(s) ==> ({
            &&& s.trace_id == request.trace_id
            &&& s.turn_id == request.turn_id
            &&& s.span_name == request.span_name
            &&& s.parent_span_id == if request.parent_span_id@.len() == 0 {
                None
            } else {
                Some(request.parent_span_id)
            }
            &&& s.start_ms == request.start_ms
            &&& s.end_ms == if request.end_ms > 0 {
                Some(request.end_ms)
            } else {
                None
            }
            &&& s.attributes_json == attributes_json
        }),
{
    if trim_vec(&chars_of(request.trace_id.as_str())).len() == 0 || trim_vec(
        &chars_of(request.span_name.as_str()),
    ).len() == 0 {
        return Err(String::from_str("trace_id and span_name required"));
    }
    let parent_span_id = if chars_of(request.parent_span_id.as_str()).len() == 0 {
        None
    } else {
        Some(request.parent_span_id)
    };
    Ok(
        SpanRecord {
            trace_id: request.trace_id,
            turn_id: request.turn_id,
            span_name: request.span_name,
            parent_span_id,
            start_ms: request.start_ms,
            end_ms: if request.end_ms > 0 {
                Some(request.end_ms)
            } else {
                None
            },
            attributes_json,
        },
    )
}

/// The store is reachable only with observability on.
pub fn store_available(observability_enabled: bool) -> (r: Result<(), RpcStatus>)
    ensures
        observability_enabled <==> r is Ok,
        r matches Err(s) ==> s.code == RpcCode::FailedPrecondition && s.message@
            == "observability disabled"@,
{
    if observability_enabled {
        Ok(())
    } else {
        Err(
            RpcStatus {
                code: RpcCode::FailedPrecondition,
                message: String::from_str("observability disabled"),
            },
        )
    }
}

} // verus!
