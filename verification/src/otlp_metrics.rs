//! OTLP metrics: the terminal-time context of a stream and the values the
//! exporter records from a stream record. The exporter itself is set up at
//! the edge of the program.
use vstd::prelude::*;

use crate::observability::StreamEconomicsRecord;
use crate::text::{chars_of, lower, lower_vec, string_of, trim, trim_vec};

verus! {

/// Optional terminal-time fields not stored on the stream record.
#[derive(Debug, Clone)]
pub struct TerminalOtlpContext {
    pub ttft_ms: Option<u64>,
    pub approval_outcome: Option<String>,
    pub error_type: Option<String>,
    pub broker_inference_outcome: Option<String>,
    pub load_duration_ms: Option<u64>,
}

impl Default for TerminalOtlpContext {
    fn default() -> (c: Self)
        ensures
            c.ttft_ms is None,
            c.approval_outcome is None,
            c.error_type is None,
            c.broker_inference_outcome is None,
            c.load_duration_ms is None,
    {
        TerminalOtlpContext {
            ttft_ms: None,
            approval_outcome: None,
            error_type: None,
            broker_inference_outcome: None,
            load_duration_ms: None,
        }
    }
}

/// The transport an OTLP exporter uses.
#[derive(Debug, Clone, Copy, PartialEq, Eq, Structural)]
pub enum OtlpTransport {
    HttpProtobuf,
    Grpc,
}

/// The transport for a configured protocol name: HTTP for `http/protobuf`
/// (or `http-protobuf`, any case), gRPC otherwise.
pub fn otlp_transport(protocol: &str) -> (t: OtlpTransport)
    ensures
        t == if lower(trim(protocol@)) == "http/protobuf"@ || lower(trim(protocol@))
            == "http-protobuf"@ {
            OtlpTransport::HttpProtobuf
        } else {
            OtlpTransport::Grpc
        },
{
    let p = lower_vec(&trim_vec(&chars_of(protocol)));
    if crate::text::eq_vec(&p, &chars_of("http/protobuf")) || crate::text::eq_vec(
        &p,
        &chars_of("http-protobuf"),
    ) {
        OtlpTransport::HttpProtobuf
    } else {
        OtlpTransport::Grpc
    }
}

/// The exporter's service name: the trimmed configured one, else the default.
pub fn otlp_service_name(configured: &str, default_name: &str) -> (s: String)
    ensures
        s@ == if trim(configured@).len() == 0 {
            default_name@
        } else {
            trim(configured@)
        },
{
    let t = trim_vec(&chars_of(configured));
    if t.len() == 0 {
        String::from_str(default_name)
    } else {
        string_of(&t)
    }
}

/// Estimated output tokens of a stream: 32 per chunk sent (saturating).
pub fn completion_estimate(chunks_sent: u64) -> (n: u64)
    ensures
        n == if chunks_sent * 32 <= u64::MAX {
            chunks_sent * 32
        } else {
            u64::MAX as int
        },
{
    if chunks_sent > u64::MAX / 32 {
        u64::MAX
    } else {
        chunks_sent * 32
    }
}

/// Recorded retrieval time: none for skipped retrieval, else 2 ms per
/// candidate (saturating).
pub fn retrieval_duration_ms(retrieval: &str, context_candidates: u64) -> (n: u64)
    ensures
        n == if retrieval@ == "skipped"@ {
            0
        } else if context_candidates * 2 <= u64::MAX {
            context_candidates * 2
        } else {
            u64::MAX as int
        },
{
    if crate::text::eq_vec(&chars_of(retrieval), &chars_of("skipped")) {
        0
    } else if context_candidates > u64::MAX / 2 {
        u64::MAX
    } else {
        context_candidates * 2
    }
}


/// How often the exporter pushes, in seconds.
pub const OTLP_EXPORT_INTERVAL_SECS: u64 = 5;

/// The meter the daemon's instruments belong to.
pub const OTLP_METER_NAME: &'static str = "rex-daemon";

/// What the exporter is set up with.
#[derive(Debug, Clone)]
pub struct OtlpExportPlan {
    pub endpoint: String,
    pub transport: OtlpTransport,
    pub service_name: String,
    pub export_interval_secs: u64,
}

/// The exporter setup for the configured endpoint, protocol and service
/// name; without an endpoint, the degraded reason `missing_endpoint`.
pub fn otlp_export_plan(
    endpoint: &str,
    protocol: &str,
    service_name: &str,
    default_service_name: &str,
) -> (r: Result<OtlpExportPlan, String>)
    ensures
        trim(endpoint@).len() == 0 <==> r is Err,
        r matches Err(reason) ==> reason@ == "missing_endpoint"@,
        r matches Ok(plan) ==> ({
            &&& plan.endpoint@ == trim(endpoint@)
            &&& plan.transport == (if lower(trim(protocol@)) == "http/protobuf"@ || lower(
                trim(protocol@),
            ) == "http-protobuf"@ {
                OtlpTransport::HttpProtobuf
            } else {
                OtlpTransport::Grpc
            })
            &&& plan.service_name@ == if trim(service_name@).len() == 0 {
                default_service_name@
            } else {
                trim(service_name@)
            }
            &&& plan.export_interval_secs == OTLP_EXPORT_INTERVAL_SECS
        }),
{
    let e = trim_vec(&chars_of(endpoint));
    if e.len() == 0 {
        return Err(String::from_str("missing_endpoint"));
    }
    Ok(
        OtlpExportPlan {
            endpoint: string_of(&e),
            transport: otlp_transport(protocol),
            service_name: otlp_service_name(service_name, default_service_name),
            export_interval_secs: OTLP_EXPORT_INTERVAL_SECS,
        },
    )
}

/// The degraded reason of an exporter that could not be built.
pub fn exporter_build_reason(err: &str) -> (s: String)
    ensures
        s@ == "exporter_build:"@ + err@,
{
    String::from_str("exporter_build:").concat(err)
}

/// The instruments the daemon records.
#[derive(Debug, Clone, Copy, PartialEq, Eq, Structural)]
pub enum MetricInstrument {
    StreamRequests,
    StreamDuration,
    CacheDecisions,
    PromptTokens,
    ContextTokens,
    OperationDuration,
    TokenUsage,
    TimeToFirstChunk,
    RetrievalDuration,
    CompressionRatio,
    LoadDuration,
    ApprovalDecisions,
    BrokerInference,
}

/// The kind of an instrument.
#[derive(Debug, Clone, Copy, PartialEq, Eq, Structural)]
pub enum InstrumentKind {
    Counter,
    IntegerHistogram,
    RealHistogram,
}

/// Name, description, unit and kind of an instrument.
pub open spec fn instrument_spec(i: MetricInstrument) -> (
    Seq<char>,
    Seq<char>,
    Option<Seq<char>>,
    InstrumentKind,
) {
    match i {
        MetricInstrument::StreamRequests => (
            "rex.stream.requests"@,
            "Stream terminal outcomes"@,
            None,
            InstrumentKind::Counter,
        ),
        MetricInstrument::StreamDuration => (
            "rex.stream.duration_ms"@,
            "Stream elapsed milliseconds"@,
            Some("ms"@),
            InstrumentKind::IntegerHistogram,
        ),
        MetricInstrument::CacheDecisions => (
            "rex.cache.decisions"@,
            "Cache policy decisions"@,
            None,
            InstrumentKind::Counter,
        ),
        MetricInstrument::PromptTokens => (
            "rex.context.prompt_tokens"@,
            "Estimated prompt tokens"@,
            None,
            InstrumentKind::IntegerHistogram,
        ),
        MetricInstrument::ContextTokens => (
            "rex.context.selected_tokens"@,
            "Selected context tokens"@,
            None,
            InstrumentKind::IntegerHistogram,
        ),
        MetricInstrument::OperationDuration => (
            "gen_ai.client.operation.duration"@,
            "Client operation duration"@,
            Some("ms"@),
            InstrumentKind::RealHistogram,
        ),
        MetricInstrument::TokenUsage => (
            "gen_ai.client.token.usage"@,
            "Token usage by type"@,
            None,
            InstrumentKind::IntegerHistogram,
        ),
        MetricInstrument::TimeToFirstChunk => (
            "gen_ai.client.operation.time_to_first_chunk"@,
            "Time to first streamed chunk"@,
            Some("ms"@),
            InstrumentKind::IntegerHistogram,
        ),
        MetricInstrument::RetrievalDuration => (
            "rex.pipeline.retrieval.duration"@,
            "Retrieval phase duration"@,
            Some("ms"@),
            InstrumentKind::IntegerHistogram,
        ),
        MetricInstrument::CompressionRatio => (
            "rex.pipeline.compression.ratio"@,
            "Context compression ratio"@,
            None,
            InstrumentKind::RealHistogram,
        ),
        MetricInstrument::LoadDuration => (
            "rex.local.hardware.load_duration"@,
            "Local model load duration"@,
            Some("ms"@),
            InstrumentKind::IntegerHistogram,
        ),
        MetricInstrument::ApprovalDecisions => (
            "rex.approval.decisions"@,
            "Agent approval gate outcomes"@,
            None,
            InstrumentKind::Counter,
        ),
        MetricInstrument::BrokerInference => (
            "rex.broker.inference"@,
            "Broker inference RPC outcomes"@,
            None,
            InstrumentKind::Counter,
        ),
    }
}

impl MetricInstrument {
    /// Name, description, unit and kind of the instrument.
    pub fn spec(self) -> (r: (&'static str, &'static str, Option<&'static str>, InstrumentKind))
        ensures
            (r.0@, r.1@, match r.2 {
                Some(u) => Some(u@),
                None => None,
            }, r.3) == instrument_spec(self),
    {
        match self {
            MetricInstrument::StreamRequests => (
                "rex.stream.requests",
                "Stream terminal outcomes",
                None,
                InstrumentKind::Counter,
            ),
            MetricInstrument::StreamDuration => (
                "rex.stream.duration_ms",
                "Stream elapsed milliseconds",
                Some("ms"),
                InstrumentKind::IntegerHistogram,
            ),
            MetricInstrument::CacheDecisions => (
                "rex.cache.decisions",
                "Cache policy decisions",
                None,
                InstrumentKind::Counter,
            ),
            MetricInstrument::PromptTokens => (
                "rex.context.prompt_tokens",
                "Estimated prompt tokens",
                None,
                InstrumentKind::IntegerHistogram,
            ),
            MetricInstrument::ContextTokens => (
                "rex.context.selected_tokens",
                "Selected context tokens",
                None,
                InstrumentKind::IntegerHistogram,
            ),
            MetricInstrument::OperationDuration => (
                "gen_ai.client.operation.duration",
                "Client operation duration",
                Some("ms"),
                InstrumentKind::RealHistogram,
            ),
            MetricInstrument::TokenUsage => (
                "gen_ai.client.token.usage",
                "Token usage by type",
                None,
                InstrumentKind::IntegerHistogram,
            ),
            MetricInstrument::TimeToFirstChunk => (
                "gen_ai.client.operation.time_to_first_chunk",
                "Time to first streamed chunk",
                Some("ms"),
                InstrumentKind::IntegerHistogram,
            ),
            MetricInstrument::RetrievalDuration => (
                "rex.pipeline.retrieval.duration",
                "Retrieval phase duration",
                Some("ms"),
                InstrumentKind::IntegerHistogram,
            ),
            MetricInstrument::CompressionRatio => (
                "rex.pipeline.compression.ratio",
                "Context compression ratio",
                None,
                InstrumentKind::RealHistogram,
            ),
            MetricInstrument::LoadDuration => (
                "rex.local.hardware.load_duration",
                "Local model load duration",
                Some("ms"),
                InstrumentKind::IntegerHistogram,
            ),
            MetricInstrument::ApprovalDecisions => (
                "rex.approval.decisions",
                "Agent approval gate outcomes",
                None,
                InstrumentKind::Counter,
            ),
            MetricInstrument::BrokerInference => (
                "rex.broker.inference",
                "Broker inference RPC outcomes",
                None,
                InstrumentKind::Counter,
            ),
        }
    }
}

/// The value of one recorded point: an integer, or a ratio recorded as a
/// real number (zero when the denominator is zero).
#[derive(Debug, Clone, Copy, PartialEq, Eq, Structural)]
pub enum MetricValue {
    Count(u64),
    Ratio(u64, u64),
}

/// One value to record on an instrument, with its attributes.
#[derive(Debug, Clone)]
pub struct MetricPoint {
    pub instrument: MetricInstrument,
    pub value: MetricValue,
    pub attributes: Vec<(String, String)>,
}

/// The model of a point.
pub type PointView = (MetricInstrument, MetricValue, Seq<(Seq<char>, Seq<char>)>);

pub open spec fn point_view(p: MetricPoint) -> PointView {
    (p.instrument, p.value, p.attributes@.map_values(|a: (String, String)| (a.0@, a.1@)))
}

/// The points a finished stream records, in order: request count and
/// duration, cache decision, prompt and context tokens, operation duration,
/// input tokens, estimated output tokens (when any), time to first chunk
/// (when known), retrieval time, compression ratio, load time (when known),
/// approval and broker outcomes (when any) and cached input tokens (when
/// known).
pub open spec fn stream_points(r: StreamEconomicsRecord, c: TerminalOtlpContext) -> Seq<PointView> {
    let terminal = ("terminal"@, r.terminal@);
    let runtime = ("inference_runtime"@, r.inference_runtime@);
    let route = ("route"@, r.route@);
    let mode = ("mode"@, r.mode@);
    let model = ("model_id"@, r.model@);
    let error_type = (
        "error.type"@,
        match c.error_type {
            Some(e) => e@,
            None => Seq::empty(),
        },
    );
    let est = if r.chunks_sent * 32 <= u64::MAX {
        (r.chunks_sent * 32) as u64
    } else {
        u64::MAX
    };
    let retrieval_ms = if r.retrieval@ == "skipped"@ {
        0u64
    } else if r.context_candidates * 2 <= u64::MAX {
        (r.context_candidates * 2) as u64
    } else {
        u64::MAX
    };
    let p0 = seq![
        (MetricInstrument::StreamRequests, MetricValue::Count(1), seq![terminal, runtime, route]),
        (MetricInstrument::StreamDuration, MetricValue::Count(r.elapsed_ms), seq![terminal, runtime, route]),
        (MetricInstrument::CacheDecisions, MetricValue::Count(1), seq![("decision"@, r.cache_decision@)]),
        (MetricInstrument::PromptTokens, MetricValue::Count(r.prompt_tokens), seq![mode, route]),
        (MetricInstrument::ContextTokens, MetricValue::Count(r.context_tokens), seq![mode, route]),
        (MetricInstrument::OperationDuration, MetricValue::Count(r.elapsed_ms), seq![model, route, error_type]),
        (MetricInstrument::TokenUsage, MetricValue::Count(r.prompt_tokens), seq![("gen_ai.token.type"@, "input"@), model, route]),
    ];
    let p1 = if est > 0 {
        p0.push((MetricInstrument::TokenUsage, MetricValue::Count(est), seq![("gen_ai.token.type"@, "output"@), model, route]))
    } else {
        p0
    };
    let p2 = match c.ttft_ms {
        Some(t) => p1.push((MetricInstrument::TimeToFirstChunk, MetricValue::Count(t), seq![model, route])),
        None => p1,
    };
    let p3 = p2.push((MetricInstrument::RetrievalDuration, MetricValue::Count(retrieval_ms), seq![("retrieval_status"@, r.retrieval@)])).push(
        (MetricInstrument::CompressionRatio, MetricValue::Ratio(r.context_tokens, r.prompt_tokens), seq![("compression_strategy"@, r.compression_strategy@)]),
    );
    let p4 = match c.load_duration_ms {
        Some(l) => p3.push((MetricInstrument::LoadDuration, MetricValue::Count(l), seq![model, ("quant"@, "unknown"@)])),
        None => p3,
    };
    let p5 = match c.approval_outcome {
        Some(o) => p4.push((MetricInstrument::ApprovalDecisions, MetricValue::Count(1), seq![("outcome"@, o@)])),
        None => p4,
    };
    let p6 = match c.broker_inference_outcome {
        Some(o) => p5.push((MetricInstrument::BrokerInference, MetricValue::Count(1), seq![("outcome"@, o@)])),
        None => p5,
    };
    match r.cached_tokens {
        Some(n) => p6.push((MetricInstrument::TokenUsage, MetricValue::Count(n), seq![("gen_ai.token.type"@, "cached_input"@), model, route])),
        None => p6,
    }
}

/// An attribute pair.
fn attr(k: &str, v: &str) -> (r: (String, String))
    ensures
        r.0@ == k@,
        r.1@ == v@,
{
    (String::from_str(k), String::from_str(v))
}

/// Record one point.
fn point(
    out: &mut Vec<MetricPoint>,
    instrument: MetricInstrument,
    value: MetricValue,
    attributes: Vec<(String, String)>,
)
    ensures
        final(out)@.map_values(|p: MetricPoint| point_view(p)) == old(out)@.map_values(
            |p: MetricPoint| point_view(p),
        ).push((instrument, value, attributes@.map_values(|a: (String, String)| (a.0@, a.1@)))),
{
    let ghost before = out@;
    out.push(MetricPoint { instrument, value, attributes });
    assert(out@.map_values(|p: MetricPoint| point_view(p)) =~= before.map_values(
        |p: MetricPoint| point_view(p),
    ).push((instrument, value, attributes@.map_values(|a: (String, String)| (a.0@, a.1@)))));
}

/// Three attribute pairs.
fn attrs3(a: (String, String), b: (String, String), c: (String, String)) -> (r: Vec<(String, String)>)
    ensures
        r@.map_values(|x: (String, String)| (x.0@, x.1@)) == seq![
            (a.0@, a.1@),
            (b.0@, b.1@),
            (c.0@, c.1@),
        ],
{
    let mut r: Vec<(String, String)> = Vec::new();
    r.push(a);
    r.push(b);
    r.push(c);
    assert(r@.map_values(|x: (String, String)| (x.0@, x.1@)) =~= seq![
        (a.0@, a.1@),
        (b.0@, b.1@),
        (c.0@, c.1@),
    ]);
    r
}

/// Two attribute pairs.
fn attrs2(a: (String, String), b: (String, String)) -> (r: Vec<(String, String)>)
    ensures
        r@.map_values(|x: (String, String)| (x.0@, x.1@)) == seq![(a.0@, a.1@), (b.0@, b.1@)],
{
    let mut r: Vec<(String, String)> = Vec::new();
    r.push(a);
    r.push(b);
    assert(r@.map_values(|x: (String, String)| (x.0@, x.1@)) =~= seq![(a.0@, a.1@), (b.0@, b.1@)]);
    r
}

/// One attribute pair.
fn attrs1(a: (String, String)) -> (r: Vec<(String, String)>)
    ensures
        r@.map_values(|x: (String, String)| (x.0@, x.1@)) == seq![(a.0@, a.1@)],
{
    let mut r: Vec<(String, String)> = Vec::new();
    r.push(a);
    assert(r@.map_values(|x: (String, String)| (x.0@, x.1@)) =~= seq![(a.0@, a.1@)]);
    r
}

/// The points a finished stream records on the daemon's instruments.
#[verifier::rlimit(50)]
pub fn stream_metric_points(r: &StreamEconomicsRecord, c: &TerminalOtlpContext) -> (out: Vec<
    MetricPoint,
>)
    ensures
        out@.map_values(|p: MetricPoint| point_view(p)) == stream_points(*r, *c),
{
    let mut out: Vec<MetricPoint> = Vec::new();
    let terminal = r.terminal.as_str();
    let runtime = r.inference_runtime.as_str();
    let route = r.route.as_str();
    let mode = r.mode.as_str();
    let model = r.model.as_str();
    let error_type = match &c.error_type {
        Some(e) => e.clone(),
        None => String::new(),
    };
    point(
        &mut out,
        MetricInstrument::StreamRequests,
        MetricValue::Count(1),
        attrs3(attr("terminal", terminal), attr("inference_runtime", runtime), attr("route", route)),
    );
    point(
        &mut out,
        MetricInstrument::StreamDuration,
        MetricValue::Count(r.elapsed_ms),
        attrs3(attr("terminal", terminal), attr("inference_runtime", runtime), attr("route", route)),
    );
    point(
        &mut out,
        MetricInstrument::CacheDecisions,
        MetricValue::Count(1),
        attrs1(attr("decision", r.cache_decision.as_str())),
    );
    point(
        &mut out,
        MetricInstrument::PromptTokens,
        MetricValue::Count(r.prompt_tokens),
        attrs2(attr("mode", mode), attr("route", route)),
    );
    point(
        &mut out,
        MetricInstrument::ContextTokens,
        MetricValue::Count(r.context_tokens),
        attrs2(attr("mode", mode), attr("route", route)),
    );
    point(
        &mut out,
        MetricInstrument::OperationDuration,
        MetricValue::Count(r.elapsed_ms),
        attrs3(attr("model_id", model), attr("route", route), attr("error.type", error_type.as_str())),
    );
    point(
        &mut out,
        MetricInstrument::TokenUsage,
        MetricValue::Count(r.prompt_tokens),
        attrs3(attr("gen_ai.token.type", "input"), attr("model_id", model), attr("route", route)),
    );
    let est = completion_estimate(r.chunks_sent);
    if est > 0 {
        point(
            &mut out,
            MetricInstrument::TokenUsage,
            MetricValue::Count(est),
            attrs3(attr("gen_ai.token.type", "output"), attr("model_id", model), attr("route", route)),
        );
    }
    match c.ttft_ms {
        Some(t) => point(
            &mut out,
            MetricInstrument::TimeToFirstChunk,
            MetricValue::Count(t),
            attrs2(attr("model_id", model), attr("route", route)),
        ),
        None => {},
    }
    let retrieval_ms = retrieval_duration_ms(r.retrieval.as_str(), r.context_candidates);
    point(
        &mut out,
        MetricInstrument::RetrievalDuration,
        MetricValue::Count(retrieval_ms),
        attrs1(attr("retrieval_status", r.retrieval.as_str())),
    );
    point(
        &mut out,
        MetricInstrument::CompressionRatio,
        MetricValue::Ratio(r.context_tokens, r.prompt_tokens),
        attrs1(attr("compression_strategy", r.compression_strategy.as_str())),
    );
    match c.load_duration_ms {
        Some(l) => point(
            &mut out,
            MetricInstrument::LoadDuration,
            MetricValue::Count(l),
            attrs2(attr("model_id", model), attr("quant", "unknown")),
        ),
        None => {},
    }
    match &c.approval_outcome {
        Some(o) => point(
            &mut out,
            MetricInstrument::ApprovalDecisions,
            MetricValue::Count(1),
            attrs1(attr("outcome", o.as_str())),
        ),
        None => {},
    }
    match &c.broker_inference_outcome {
        Some(o) => point(
            &mut out,
            MetricInstrument::BrokerInference,
            MetricValue::Count(1),
            attrs1(attr("outcome", o.as_str())),
        ),
        None => {},
    }
    match r.cached_tokens {
        Some(n) => point(
            &mut out,
            MetricInstrument::TokenUsage,
            MetricValue::Count(n),
            attrs3(
                attr("gen_ai.token.type", "cached_input"),
                attr("model_id", model),
                attr("route", route),
            ),
        ),
        None => {},
    }
    assert(out@.map_values(|p: MetricPoint| point_view(p)) =~= stream_points(*r, *c));
    out
}

} // verus!
