//! Request-path decisions of the daemon service: the in-prompt directives,
//! the workspace precondition, correlation ids from request metadata, route
//! labels, and the stable labels written to the daemon log.
use vstd::prelude::*;

use crate::adapters::{AdapterCapabilities, RpcCode, RpcStatus, RuntimeKind, StreamInferenceResponse};
use crate::approvals::{ApprovalContext, ApprovalDecision, ApprovalGate, ConfiguredGate};
use crate::l1_cache::{L1Key, L1KeyView};
use crate::plugins::{
    BehaviorDecision, BehaviorSnapshot, CacheStatus, ContextPipeline, ContextRequest, ContextSources,
    PipelineResult, RetrievalDecision,
};
use crate::policy::{CacheDecision, CacheDecisionState, PolicyEngine, PolicyRequest, ResponseCache};
use crate::turn_correlation::TurnCorrelation;
use crate::settings::Settings;
use crate::text::{append_vec, chars_of, ends_with, lower, starts_with, string_of, trim, trim_vec};

verus! {

/// Directives written as lines of the prompt.
#[derive(Debug, Clone)]
pub struct PromptDirectives {
    pub diagnostics_hint: Option<String>,
    pub cache_bypass: bool,
    pub behavior_snapshot: BehaviorSnapshot,
    pub retrieve_off: bool,
}

/// The trimmed text of a `[[diag:…]]` line.
pub open spec fn diag_value(line: Seq<char>) -> Option<Seq<char>> {
    if starts_with(line, "[[diag:"@) && line.len() >= 9 && ends_with(line.skip(7), "]]"@) {
        Some(trim(line.subrange(7, line.len() - 2)))
    } else {
        None
    }
}

/// The directives of some lines: the last non-empty diagnostics hint, and
/// whether cache bypass, focused behavior and retrieval-off were asked for.
pub open spec fn directives_of(lines: Seq<Seq<char>>) -> (Option<Seq<char>>, bool, bool, bool)
    decreases lines.len(),
{
    if lines.len() == 0 {
        (None, false, false, false)
    } else {
        let d = directives_of(lines.drop_last());
        let l = lines.last();
        match diag_value(l) {
            Some(v) => (
                if v.len() > 0 {
                    Some(v)
                } else {
                    d.0
                },
                d.1,
                d.2,
                d.3,
            ),
            None => (
                d.0,
                d.1 || trim(l) == "[[cache:bypass]]"@,
                d.2 || trim(l) == "[[behavior:focused]]"@,
                d.3 || trim(l) == "[[retrieve:off]]"@,
            ),
        }
    }
}

fn diag_value_vec(l: &Vec<char>) -> (r: Option<Vec<char>>)
    ensures
        match diag_value(l@) {
            Some(v) => r matches Some(x) && x@ == v,
            None => r is None,
        },
{
    let prefix = chars_of("[[diag:");
    let suffix = chars_of("]]");
    proof {
        reveal_strlit("[[diag:");
        reveal_strlit("]]");
    }
    if crate::text::starts_with_vec(l, &prefix) && l.len() >= 9 {
        let rest = crate::text::slice_vec(l, 7, l.len());
        assert(rest@ =~= l@.skip(7));
        if crate::text::ends_with_vec(&rest, &suffix) {
            let mid = crate::text::slice_vec(l, 7, l.len() - 2);
            return Some(trim_vec(&mid));
        }
    }
    None
}

impl PromptDirectives {
    /// Read the directives from the prompt's lines.
    pub fn from_prompt(prompt: &str) -> (d: Self)
        ensures
            ({
                let s = directives_of(crate::text::text_lines(prompt@));
                &&& match s.0 {
                    Some(v) => d.diagnostics_hint matches Some(h) && h@ == v,
                    None => d.diagnostics_hint is None,
                }
                &&& d.cache_bypass == s.1
                &&& d.behavior_snapshot == (if s.2 {
                    BehaviorSnapshot { typing_cadence_cpm: 500, pause_events_last_minute: 0 }
                } else {
                    BehaviorSnapshot { typing_cadence_cpm: 0, pause_events_last_minute: 0 }
                })
                &&& d.retrieve_off == s.3
            }),
    {
        let lines = crate::text::text_lines_vec(&chars_of(prompt));
        let ghost lv = crate::path::views(lines@);
        let mut diag: Option<Vec<char>> = None;
        let mut bypass = false;
        let mut focused = false;
        let mut off = false;
        let mut i: usize = 0;
        while i < lines.len()
            invariant
                i <= lines.len(),
                lv == crate::path::views(lines@),
                lv == crate::text::text_lines(prompt@),
                ({
                    let s = directives_of(lv.take(i as int));
                    &&& match s.0 {
                        Some(v) => diag matches Some(h) && h@ == v,
                        None => diag is None,
                    }
                    &&& bypass == s.1
                    &&& focused == s.2
                    &&& off == s.3
                }),
            decreases lines.len() - i,
        {
            assert(lv.take(i + 1).drop_last() =~= lv.take(i as int));
            assert(lv.take(i + 1).last() == lines@[i as int]@);
            let l = &lines[i];
            match diag_value_vec(l) {
                Some(v) => {
                    if v.len() > 0 {
                        diag = Some(v);
                    }
                },
                None => {
                    let t = trim_vec(l);
                    if crate::text::eq_vec(&t, &chars_of("[[cache:bypass]]")) {
                        bypass = true;
                    }
                    if crate::text::eq_vec(&t, &chars_of("[[behavior:focused]]")) {
                        focused = true;
                    }
                    if crate::text::eq_vec(&t, &chars_of("[[retrieve:off]]")) {
                        off = true;
                    }
                },
            }
            i = i + 1;
        }
        assert(lv.take(lines.len() as int) =~= lv);
        PromptDirectives {
            diagnostics_hint: match diag {
                Some(v) => Some(string_of(&v)),
                None => None,
            },
            cache_bypass: bypass,
            behavior_snapshot: if focused {
                BehaviorSnapshot { typing_cadence_cpm: 500, pause_events_last_minute: 0 }
            } else {
                BehaviorSnapshot { typing_cadence_cpm: 0, pause_events_last_minute: 0 }
            },
            retrieve_off: off,
        }
    }
}

/// Stable label of a pipeline cache status.
pub fn format_cache_status(status: CacheStatus) -> (s: &'static str)
    ensures
        s@ == match status {
            CacheStatus::Hit => "hit"@,
            CacheStatus::MissStored => "miss_stored"@,
            CacheStatus::Bypass => "bypass"@,
        },
{
    match status {
        CacheStatus::Hit => "hit",
        CacheStatus::MissStored => "miss_stored",
        CacheStatus::Bypass => "bypass",
    }
}

/// Stable label of a behavior decision.
pub fn format_behavior_decision(decision: &BehaviorDecision) -> (s: &'static str)
    ensures
        s@ == match *decision {
            BehaviorDecision::Allow => "allow"@,
            BehaviorDecision::Suppress { .. } => "suppress"@,
        },
{
    match decision {
        BehaviorDecision::Allow => "allow",
        BehaviorDecision::Suppress { .. } => "suppress",
    }
}

/// Stable label of an approval decision.
pub fn format_approval_decision(decision: &ApprovalDecision) -> (s: &'static str)
    ensures
        s@ == match *decision {
            ApprovalDecision::Allow => "allow"@,
            ApprovalDecision::Deny { .. } => "deny"@,
            ApprovalDecision::Checkpoint { .. } => "checkpoint"@,
        },
{
    match decision {
        ApprovalDecision::Allow => "allow",
        ApprovalDecision::Deny { .. } => "deny",
        ApprovalDecision::Checkpoint { .. } => "checkpoint",
    }
}

/// The route a stream takes, as logged.
pub open spec fn route_label(runtime: Seq<char>, harness_only: bool, sidecar: bool) -> Seq<char> {
    if harness_only {
        "harness_direct+"@ + runtime
    } else if sidecar {
        "sidecar+"@ + runtime
    } else {
        "daemon_direct+"@ + runtime
    }
}

/// The route label: harness-direct wins, then the sidecar product path,
/// else the daemon itself.
pub fn resolve_route_label_for(inference_runtime: &str, harness_only: bool, sidecar_product_path: bool) -> (s:
    String)
    ensures
        s@ == route_label(inference_runtime@, harness_only, sidecar_product_path),
{
    let mut r = if harness_only {
        chars_of("harness_direct+")
    } else if sidecar_product_path {
        chars_of("sidecar+")
    } else {
        chars_of("daemon_direct+")
    };
    append_vec(&mut r, &chars_of(inference_runtime));
    string_of(&r)
}

/// Streams need a workspace root when the workspace indexer is configured.
pub fn ensure_workspace_configured(settings: &Settings) -> (r: Result<(), RpcStatus>)
    ensures
        lower(trim(settings.workspace_indexer_mode@)) != "workspace"@ ==> r is Ok,
        lower(trim(settings.workspace_indexer_mode@)) == "workspace"@ && settings.workspace_root is Some
            ==> r is Ok,
        lower(trim(settings.workspace_indexer_mode@)) == "workspace"@ && settings.workspace_root is None
            ==> (r matches Err(s) && s.code == RpcCode::FailedPrecondition && s.message@
            == "workspace root not configured (set workspace.root in .rex/config.json)"@),
{
    let mode = crate::text::lower_vec(&trim_vec(&chars_of(settings.workspace_indexer_mode.as_str())));
    if !crate::text::eq_vec(&mode, &chars_of("workspace")) {
        return Ok(());
    }
    match &settings.workspace_root {
        Some(_) => Ok(()),
        None => Err(
            RpcStatus {
                code: RpcCode::FailedPrecondition,
                message: String::from_str(
                    "workspace root not configured (set workspace.root in .rex/config.json)",
                ),
            },
        ),
    }
}

/// The trace id of a request: the trimmed `x-rex-trace-id` header, else
/// `request-<id>`.
pub fn extract_trace_id(trace_header: Option<&str>, request_id: u64) -> (s: String)
    ensures
        s@ == match trace_header {
            Some(h) => if trim(h@).len() > 0 {
                trim(h@)
            } else {
                "request-"@ + crate::text::decimal(request_id as nat)
            },
            None => "request-"@ + crate::text::decimal(request_id as nat),
        },
{
    match trace_header {
        Some(h) => {
            let t = trim_vec(&chars_of(h));
            if t.len() > 0 {
                return string_of(&t);
            }
        },
        None => {},
    }
    crate::text::prefixed_decimal("request-", request_id)
}

/// The turn id of a request: the trimmed `x-rex-turn-id` header, or empty.
pub fn extract_turn_id(turn_header: Option<&str>) -> (s: String)
    ensures
        s@ == match turn_header {
            Some(h) => trim(h@),
            None => Seq::<char>::empty(),
        },
{
    match turn_header {
        Some(h) => string_of(&trim_vec(&chars_of(h))),
        None => String::new(),
    }
}

/// Whether the configuration bypasses the response cache.
pub fn cache_bypass_from_config(settings: &Settings) -> (b: bool)
    ensures
        b == settings.cache_bypass,
{
    settings.cache_bypass
}

/// The status a stream answers when its sidecar is unavailable: a failed
/// precondition when the sidecar is required, else unavailable.
pub fn sidecar_error_to_status(err: &crate::supervisor::SupervisorError, required: bool) -> (s:
    RpcStatus)
    ensures
        required ==> s.code == RpcCode::FailedPrecondition && s.message@
            == "sidecar required but unavailable: "@ + crate::supervisor::supervisor_message(*err),
        !required ==> s.code == RpcCode::Unavailable && s.message@ == "sidecar unavailable: "@
            + crate::supervisor::supervisor_message(*err),
{
    let m = err.message();
    if required {
        RpcStatus {
            code: RpcCode::FailedPrecondition,
            message: String::from_str("sidecar required but unavailable: ").concat(m.as_str()),
        }
    } else {
        RpcStatus {
            code: RpcCode::Unavailable,
            message: String::from_str("sidecar unavailable: ").concat(m.as_str()),
        }
    }
}


// ---------------------------------------------------------------------------
// The inference stream
// ---------------------------------------------------------------------------

/// The lifecycle of a stream, as logged.
#[derive(Debug, Clone, Copy, PartialEq, Eq, Structural)]
pub enum StreamLifecycle {
    Starting,
    Streaming,
    Completed,
    Failed,
    Interrupted,
}

impl StreamLifecycle {
    /// Stable label of the lifecycle stage.
    pub fn as_str(self) -> (s: &'static str)
        ensures
            s@ == match self {
                StreamLifecycle::Starting => "starting"@,
                StreamLifecycle::Streaming => "streaming"@,
                StreamLifecycle::Completed => "completed"@,
                StreamLifecycle::Failed => "failed"@,
                StreamLifecycle::Interrupted => "interrupted"@,
            },
    {
        match self {
            StreamLifecycle::Starting => "starting",
            StreamLifecycle::Streaming => "streaming",
            StreamLifecycle::Completed => "completed",
            StreamLifecycle::Failed => "failed",
            StreamLifecycle::Interrupted => "interrupted",
        }
    }
}

/// One `StreamInference` request as the service reads it.
#[derive(Debug, Clone)]
pub struct StreamRequest {
    pub prompt: String,
    pub model: String,
    pub mode: String,
    pub approval_id: String,
    /// The editor's hints, when the client sent any: active file, language,
    /// selection.
    pub client_hints: Option<(String, String, String)>,
    pub harness_session_id: String,
    /// The `x-rex-trace-id` header.
    pub trace_header: Option<String>,
}

/// Where the chunks of a stream come from.
#[derive(Debug)]
pub enum ChunkSource {
    /// The response cache had them.
    Cached(Vec<StreamInferenceResponse>),
    /// The sidecar streams them live.
    SidecarLive,
    /// The inference runtime (or the sidecar, collected) builds them; a
    /// cachable result is then stored under the key.
    Runtime { store_under: Option<L1Key> },
}

/// Everything decided before the first chunk of a stream.
#[derive(Debug)]
pub struct StreamSetup {
    pub request_id: u64,
    pub decision_id: String,
    pub trace_id: String,
    pub runtime: RuntimeKind,
    pub route_label: String,
    pub pipeline: PipelineResult,
    pub correlation: TurnCorrelation,
    pub decision: CacheDecision,
    pub approval_outcome: Option<String>,
    pub source: ChunkSource,
    pub cache_state: CacheDecisionState,
    pub log_model: String,
    pub log_mode: String,
}

/// The service's request-path state: the context pipeline, the request
/// counter, the response cache and the approval policy.
pub struct StreamService<G, C> {
    pub pipeline: ContextPipeline,
    pub next_request_id: u64,
    /// The response-cache policy over the caller's cache layers; the daemon
    /// uses the in-process L1 cache then the L2 slot.
    pub policy_engine: PolicyEngine<C>,
    /// The approval policy for `agent` mode; the daemon uses a
    /// [`ConfiguredGate`].
    pub gate: G,
    /// Whether the host sidecar slot is enabled.
    pub sidecar_enabled: bool,
}

/// The prompt the pipeline sees: without the editor's file trailer when the
/// client sent editor hints.
pub open spec fn stream_prompt(req: StreamRequest) -> Seq<char> {
    match req.client_hints {
        Some(h) => if h.0@.len() > 0 || h.1@.len() > 0 || h.2@.len() > 0 {
            crate::turn_correlation::stripped_prompt(req.prompt@).0
        } else {
            req.prompt@
        },
        None => req.prompt@,
    }
}

/// The context request a stream hands to the pipeline: the stream prompt, its
/// directives (with the configured cache bypass), the editor's active file and
/// the harness session.
pub open spec fn stream_context_request(c: ContextRequest, req: StreamRequest, settings: Settings) -> bool {
    let prompt = stream_prompt(req);
    let s = directives_of(crate::text::text_lines(prompt));
    &&& c.prompt@ == prompt
    &&& match s.0 {
        Some(v) => c.diagnostics_hint matches Some(h) && h@ == v,
        None => c.diagnostics_hint is None,
    }
    &&& c.cache_bypass == (s.1 || settings.cache_bypass)
    &&& c.behavior_snapshot == (if s.2 {
        BehaviorSnapshot { typing_cadence_cpm: 500, pause_events_last_minute: 0 }
    } else {
        BehaviorSnapshot { typing_cadence_cpm: 0, pause_events_last_minute: 0 }
    })
    &&& c.retrieve_off == s.3
    &&& match req.client_hints {
        Some(h) => if h.0@.len() > 0 {
            c.active_file_path matches Some(f) && f@ == h.0@
        } else {
            c.active_file_path is None
        },
        None => c.active_file_path is None,
    }
    &&& c.harness_session_id@ == req.harness_session_id@
}

/// The trace id of a stream: the trimmed `x-rex-trace-id` header, else one
/// made from the request id.
pub open spec fn stream_trace_id(header: Option<String>, request_id: u64) -> Seq<char> {
    match header {
        Some(h) => if trim(h@).len() > 0 {
            trim(h@)
        } else {
            "request-"@ + crate::text::decimal(request_id as nat)
        },
        None => "request-"@ + crate::text::decimal(request_id as nat),
    }
}

/// The model a stream logs: the trimmed request model, else the built-in one.
pub open spec fn logged_model(model: Seq<char>) -> Seq<char> {
    if trim(model).len() == 0 {
        crate::domain::ACTIVE_MODEL_ID@
    } else {
        trim(model)
    }
}

/// The label of a retrieval decision.
pub open spec fn retrieval_text(d: RetrievalDecision) -> Seq<char> {
    match d {
        RetrievalDecision::Ran => "ran"@,
        RetrievalDecision::Skipped => "skipped"@,
        RetrievalDecision::AdvisoryBundle => "advisory_bundle"@,
    }
}

/// The cache decision a stream takes for its context request `c` and the
/// pipeline's effective prompt.
pub open spec fn stream_decision(
    d: CacheDecision,
    c: ContextRequest,
    req: StreamRequest,
    runtime: RuntimeKind,
    effective_prompt: Seq<char>,
    settings: Settings,
) -> bool {
    &&& c.cache_bypass ==> d == CacheDecision::Bypass
    &&& !c.cache_bypass && crate::l1_cache::mode_spec(req.mode@) == "ask"@ ==> (d matches CacheDecision::Lookup(
        k,
    ) && k@ == crate::policy::key_view_for(
        runtime,
        req.model@,
        effective_prompt,
        match settings.workspace_root {
            Some(w) => Some(w@),
            None => None,
        },
    ))
    &&& !c.cache_bypass && crate::l1_cache::mode_spec(req.mode@) != "ask"@ ==> d == (CacheDecision::Uncacheable {
        reason: crate::policy::UncacheableReason::NonAskMode,
    })
}

/// The chunks of a stream result that went through.
pub open spec fn ok_values(items: Seq<Result<StreamInferenceResponse, RpcStatus>>) -> Seq<StreamInferenceResponse> {
    items.map_values(|r: Result<StreamInferenceResponse, RpcStatus>| r->Ok_0)
}

/// The capabilities the pipeline is given for a runtime.
pub open spec fn capabilities_of(runtime: RuntimeKind) -> AdapterCapabilities {
    AdapterCapabilities {
        attach_context: runtime == RuntimeKind::Mock,
        truncate_prompt: runtime == RuntimeKind::Mock,
    }
}

/// What an approval decision means for the stream.
pub open spec fn approval_result(d: ApprovalDecision) -> Result<(), (RpcCode, Seq<char>)> {
    match d {
        ApprovalDecision::Allow => Ok(()),
        ApprovalDecision::Checkpoint { reason } => Err(
            (RpcCode::FailedPrecondition, "agent execution checkpoint required: "@ + reason@),
        ),
        ApprovalDecision::Deny { reason } => Err(
            (RpcCode::FailedPrecondition, "agent execution denied by approval gate: "@ + reason@),
        ),
    }
}

/// Turn an approval decision into the stream's go-ahead or its error.
pub fn check_approval(d: &ApprovalDecision) -> (r: Result<(), RpcStatus>)
    ensures
        match approval_result(*d) {
            Ok(()) => r is Ok,
            Err((code, message)) => r matches Err(s) && s.code == code && s.message@ == message,
        },
{
    match d {
        ApprovalDecision::Allow => Ok(()),
        ApprovalDecision::Checkpoint { reason } => Err(
            RpcStatus {
                code: RpcCode::FailedPrecondition,
                message: String::from_str("agent execution checkpoint required: ").concat(
                    reason.as_str(),
                ),
            },
        ),
        ApprovalDecision::Deny { reason } => Err(
            RpcStatus {
                code: RpcCode::FailedPrecondition,
                message: String::from_str("agent execution denied by approval gate: ").concat(
                    reason.as_str(),
                ),
            },
        ),
    }
}

/// The workspace indexer is on and no workspace root is configured.
pub open spec fn workspace_missing(settings: Settings) -> bool {
    lower(trim(settings.workspace_indexer_mode@)) == "workspace"@ && settings.workspace_root is None
}

/// An `agent`-mode request without an approval id meets an enforcing gate.
pub open spec fn approval_refused(gate: ConfiguredGate, req: StreamRequest) -> bool {
    &&& crate::l1_cache::mode_spec(req.mode@) == "agent"@
    &&& gate is Enforce
    &&& trim(req.approval_id@).len() == 0
}

/// The approval context a stream hands its gate: the request's mode, the
/// runtime, and the trimmed approval id when it is not blank.
pub open spec fn stream_approval_context(ctx: ApprovalContext, req: StreamRequest, runtime: RuntimeKind) -> bool {
    &&& ctx.mode@ == req.mode@
    &&& ctx.runtime == runtime
    &&& match ctx.approval_id {
        Some(id) => trim(req.approval_id@).len() > 0 && id@ == trim(req.approval_id@),
        None => trim(req.approval_id@).len() == 0,
    }
}

/// With the daemon's configured policy, an `agent`-mode stream is refused
/// exactly when that policy enforces and the request carries no approval id,
/// and then with the enforcement reason.
pub proof fn law_configured_gate_refusal(
    gate: ConfiguredGate,
    ctx: ApprovalContext,
    d: ApprovalDecision,
    req: StreamRequest,
    runtime: RuntimeKind,
)
    requires
        crate::l1_cache::mode_spec(req.mode@) == "agent"@,
        stream_approval_context(ctx, req, runtime),
        gate.decides(ctx, d),
    ensures
        d is Allow <==> !approval_refused(gate, req),
        approval_refused(gate, req) ==> approval_result(d) == Err::<(), (RpcCode, Seq<char>)>(
            (
                RpcCode::FailedPrecondition,
                "agent execution denied by approval gate: "@ + crate::approvals::ENFORCEMENT_DENY_REASON@,
            ),
        ),
{
    crate::text::lemma_trim_idempotent(req.approval_id@);
}

/// The sidecar streams live: it is enabled and the harness does not bypass it.
pub open spec fn sidecar_live(settings: Settings, sidecar_enabled: bool) -> bool {
    !settings.sidecar_harness_direct && sidecar_enabled
}

impl<G: ApprovalGate, C: ResponseCache> StreamService<G, C> {
    /// The decisions of a `StreamInference` request up to its first chunk:
    /// workspace precondition, context preparation, correlation ids, cache
    /// policy, approval for `agent` mode, and where the chunks come from.
    #[verifier::rlimit(60)]
    pub fn begin_stream(
        &mut self,
        req: &StreamRequest,
        settings: &Settings,
        sources: &ContextSources,
        now_ms: u64,
    ) -> (r: Result<StreamSetup, RpcStatus>)
        requires
            old(self).policy_engine.cache.layer_ready(),
            sources.context_paths_budget + old(self).pipeline.budget_of().max_context_tokens
                + sources.knowledge.tokens <= usize::MAX,
        ensures
            final(self).policy_engine.cache.layer_ready(),
            final(self).policy_engine.cache.modeled() == old(self).policy_engine.cache.modeled(),
            final(self).policy_engine.cache.stores() == old(self).policy_engine.cache.stores(),
            final(self).next_request_id == if old(self).next_request_id == u64::MAX {
                0
            } else {
                (old(self).next_request_id + 1) as u64
            },
            old(self).policy_engine.cache.modeled() ==> forall|k: L1KeyView|
                #[trigger] final(self).policy_engine.cache.cached(k) == old(self).policy_engine.cache.cached(k),
            r is Err ==> final(self).policy_engine == old(self).policy_engine,
            r matches Ok(setup) && !(setup.decision is Lookup) ==> final(self).policy_engine == old(
                self,
            ).policy_engine,
            r matches Ok(setup) ==> (setup.decision matches CacheDecision::Lookup(k) ==> old(
                self,
            ).policy_engine.cache.read_to(
                k@,
                match setup.source {
                    ChunkSource::Cached(v) => Some(v@),
                    _ => None,
                },
                final(self).policy_engine.cache,
            )),
            workspace_missing(*settings) ==> final(self).pipeline == old(self).pipeline,
            r matches Ok(setup) ==> exists|c: ContextRequest|
                #[trigger] stream_context_request(c, *req, *settings) && crate::plugins::prepared(
                    old(self).pipeline,
                    c,
                    capabilities_of(setup.runtime),
                    *settings,
                    *sources,
                    now_ms,
                    setup.pipeline,
                    final(self).pipeline,
                ) && stream_decision(
                    setup.decision,
                    c,
                    *req,
                    setup.runtime,
                    setup.pipeline.effective_prompt@,
                    *settings,
                ),
            r matches Ok(setup) ==> ({
                &&& setup.trace_id@ == stream_trace_id(req.trace_header, old(self).next_request_id)
                &&& setup.log_model@ == logged_model(req.model@)
                &&& setup.log_mode@ == crate::l1_cache::mode_spec(req.mode@)
                &&& setup.correlation.context_revision@ == crate::turn_correlation::context_revision(
                    setup.pipeline.injected_context@,
                    retrieval_text(setup.pipeline.metrics.retrieval),
                    setup.pipeline.metrics.compression_strategy@,
                    setup.pipeline.metrics.context_selected,
                    setup.pipeline.metrics.context_truncated,
                    crate::turn_correlation::workspace_fingerprint(*settings),
                )
            }),
            workspace_missing(*settings) ==> (r matches Err(s) && s.code
                == RpcCode::FailedPrecondition),
            !workspace_missing(*settings) && crate::l1_cache::mode_spec(req.mode@) != "agent"@ ==> r is Ok,
            !workspace_missing(*settings) && crate::l1_cache::mode_spec(req.mode@) == "agent"@ ==> exists|
                ctx: ApprovalContext,
                d: ApprovalDecision,
            |
                #[trigger] stream_approval_context(
                    ctx,
                    *req,
                    crate::adapters::runtime_kind_of(settings.inference_runtime@),
                ) && #[trigger] old(self).gate.decides(ctx, d) && (r is Ok <==> d is Allow) && (r matches Err(
                    s,
                ) ==> approval_result(d) == Err::<(), (RpcCode, Seq<char>)>((s.code, s.message@))),
            r matches Ok(setup) ==> (if crate::l1_cache::mode_spec(req.mode@) == "agent"@ {
                setup.approval_outcome is Some && setup.approval_outcome->Some_0@ == "allow"@
            } else {
                setup.approval_outcome is None
            }),
            r matches Ok(setup) ==> ({
                let id = old(self).next_request_id;
                &&& setup.request_id == id
                &&& setup.decision_id@ == "dec-"@ + crate::text::decimal(id as nat)
                &&& setup.runtime == crate::adapters::runtime_kind_of(settings.inference_runtime@)
                &&& setup.route_label@ == route_label(
                    crate::adapters::runtime_label(setup.runtime),
                    settings.sidecar_harness_direct,
                    sidecar_live(*settings, old(self).sidecar_enabled),
                )
                &&& setup.correlation.turn_id@ == crate::turn_correlation::turn_id_of(id)
                &&& setup.cache_state == CacheDecisionState::from_outcome_spec(
                    setup.decision,
                    setup.source is Cached,
                )
                &&& (setup.decision matches CacheDecision::Lookup(k) ==> (old(
                    self,
                ).policy_engine.cache.modeled() && old(self).policy_engine.cache.cached(k@) is Some ==> (
                setup.source is Cached && Some(setup.source->Cached_0@) == old(
                    self,
                ).policy_engine.cache.cached(k@))))
                &&& (setup.source matches ChunkSource::Cached(v) ==> setup.decision matches CacheDecision::Lookup(
                    k,
                ) && (old(self).policy_engine.cache.modeled() ==> old(self).policy_engine.cache.cached(k@)
                    == Some(v@)))
                &&& (setup.source is SidecarLive ==> sidecar_live(*settings, old(self).sidecar_enabled))
                &&& (setup.source matches ChunkSource::Runtime { store_under } ==> !sidecar_live(
                    *settings,
                    old(self).sidecar_enabled,
                ) && match setup.decision {
                    CacheDecision::Lookup(k) => store_under == Some(k),
                    _ => store_under is None,
                })
            }),
    {
        let request_id = self.next_request_id;
        self.next_request_id = if self.next_request_id == u64::MAX {
            0
        } else {
            self.next_request_id + 1
        };
        let decision_id = crate::text::prefixed_decimal("dec-", request_id);
        let trace_id = match &req.trace_header {
            Some(h) => extract_trace_id(Some(h.as_str()), request_id),
            None => extract_trace_id(None, request_id),
        };
        match ensure_workspace_configured(settings) {
            Err(e) => return Err(e),
            Ok(()) => {},
        }
        let mut prompt = string_of(&chars_of(req.prompt.as_str()));
        match &req.client_hints {
            Some(h) => {
                if chars_of(h.0.as_str()).len() > 0 || chars_of(h.1.as_str()).len() > 0
                    || chars_of(h.2.as_str()).len() > 0 {
                    let (stripped, applied) = crate::turn_correlation::strip_extension_context_blocks(
                        req.prompt.as_str(),
                    );
                    if applied {
                        prompt = stripped;
                    }
                }
            },
            None => {},
        }
        let route = crate::routing::decide_route(req.mode.as_str(), req.model.as_str(), settings);
        let runtime = route.runtime;
        let capabilities = AdapterCapabilities::for_runtime(runtime);
        let directives = PromptDirectives::from_prompt(prompt.as_str());
        let active_file_path = match &req.client_hints {
            Some(h) => if chars_of(h.0.as_str()).len() > 0 {
                Some(string_of(&chars_of(h.0.as_str())))
            } else {
                None
            },
            None => None,
        };
        let cache_bypass = directives.cache_bypass || cache_bypass_from_config(settings);
        let context_request = ContextRequest {
            prompt: string_of(&chars_of(prompt.as_str())),
            diagnostics_hint: directives.diagnostics_hint,
            cache_bypass,
            behavior_snapshot: directives.behavior_snapshot,
            retrieve_off: directives.retrieve_off,
            active_file_path,
            harness_session_id: string_of(&chars_of(req.harness_session_id.as_str())),
        };
        assert(stream_context_request(context_request, *req, *settings));
        let pipeline_result = self.pipeline.prepare(
            &context_request,
            capabilities,
            settings,
            sources,
            now_ms,
        );
        let correlation = crate::turn_correlation::build_turn_correlation(
            request_id,
            pipeline_result.injected_context.as_str(),
            pipeline_result.metrics.retrieval.as_str(),
            pipeline_result.metrics.compression_strategy,
            pipeline_result.metrics.context_selected,
            pipeline_result.metrics.context_truncated,
            settings,
        );
        let live = !settings.sidecar_harness_direct && self.sidecar_enabled;
        let route_label = resolve_route_label_for(
            runtime.log_label(),
            settings.sidecar_harness_direct,
            live,
        );
        let workspace = match &settings.workspace_root {
            Some(w) => Some(w.as_str()),
            None => None,
        };
        let policy_request = PolicyRequest {
            runtime,
            model: req.model.as_str(),
            mode: req.mode.as_str(),
            effective_prompt: pipeline_result.effective_prompt.as_str(),
            cache_bypass,
            workspace,
        };
        let decision = self.policy_engine.decide(&policy_request);
        let log_mode = crate::l1_cache::normalize_mode(req.mode.as_str());
        let mut approval_outcome: Option<String> = None;
        proof {
            reveal_strlit("agent");
        }
        if crate::text::eq_vec(&chars_of(log_mode.as_str()), &chars_of("agent")) {
            let approval_id = trim_vec(&chars_of(req.approval_id.as_str()));
            let ctx = ApprovalContext {
                mode: string_of(&chars_of(req.mode.as_str())),
                runtime,
                approval_id: if approval_id.len() == 0 {
                    None
                } else {
                    Some(string_of(&approval_id))
                },
            };
            proof {
                crate::text::lemma_trim_idempotent(req.approval_id@);
                reveal_strlit("allow");
            }
            let outcome = self.gate.check(&ctx);
            assert(stream_approval_context(ctx, *req, crate::adapters::runtime_kind_of(settings.inference_runtime@)));
            approval_outcome = Some(String::from_str(format_approval_decision(&outcome)));
            match check_approval(&outcome) {
                Err(e) => return Err(e),
                Ok(()) => {},
            }
            assert(exists|c: ApprovalContext, d: ApprovalDecision|
                #[trigger] stream_approval_context(
                    c,
                    *req,
                    crate::adapters::runtime_kind_of(settings.inference_runtime@),
                ) && #[trigger] self.gate.decides(c, d) && d is Allow);
        }
        let trimmed_model = trim_vec(&chars_of(req.model.as_str()));
        let log_model = if trimmed_model.len() == 0 {
            String::from_str(crate::domain::ACTIVE_MODEL_ID)
        } else {
            string_of(&trimmed_model)
        };
        let (source, hit) = match &decision {
            CacheDecision::Lookup(key) => {
                match self.policy_engine.get(key) {
                    Some(cached) => (ChunkSource::Cached(cached), true),
                    None => if live {
                        (ChunkSource::SidecarLive, false)
                    } else {
                        (ChunkSource::Runtime { store_under: Some(key.duplicate()) }, false)
                    },
                }
            },
            _ => if live {
                (ChunkSource::SidecarLive, false)
            } else {
                (ChunkSource::Runtime { store_under: None }, false)
            },
        };
        let cache_state = CacheDecisionState::from_outcome(&decision, hit);
        Ok(
            StreamSetup {
                request_id,
                decision_id,
                trace_id,
                runtime,
                route_label,
                pipeline: pipeline_result,
                correlation,
                decision,
                approval_outcome,
                source,
                cache_state,
                log_model,
                log_mode,
            },
        )
    }

    /// Keep a runtime's result for later reads when the setup asked for it
    /// and the result is cachable.
    pub fn store_built(&mut self, setup: &StreamSetup, built: &Vec<Result<StreamInferenceResponse, RpcStatus>>)
        requires
            old(self).policy_engine.cache.layer_ready(),
        ensures
            final(self).policy_engine.cache.layer_ready(),
            final(self).policy_engine.cache.modeled() == old(self).policy_engine.cache.modeled(),
            final(self).policy_engine.cache.stores() == old(self).policy_engine.cache.stores(),
            final(self).next_request_id == old(self).next_request_id,
            final(self).pipeline == old(self).pipeline,
            match setup.source {
                ChunkSource::Runtime { store_under: Some(k) } => {
                    &&& crate::l1_cache::cachable(built@) ==> ({
                        &&& old(self).policy_engine.cache.write_to(
                            k@,
                            ok_values(built@),
                            final(self).policy_engine.cache,
                        )
                        &&& old(self).policy_engine.cache.stores() ==> final(self).policy_engine.cache.cached(
                            k@,
                        ) == Some(ok_values(built@))
                        &&& old(self).policy_engine.cache.modeled() ==> forall|k2: L1KeyView|
                            k2 != k@ && (#[trigger] final(self).policy_engine.cache.cached(k2)) is Some
                                ==> old(self).policy_engine.cache.cached(k2) is Some
                    })
                    &&& !crate::l1_cache::cachable(built@) ==> final(self).policy_engine == old(
                        self,
                    ).policy_engine
                },
                _ => final(self).policy_engine == old(self).policy_engine,
            },
    {
        match &setup.source {
            ChunkSource::Runtime { store_under: Some(key) } => {
                match crate::l1_cache::l1_cachable_responses(built) {
                    Some(to_store) => {
                        assert(to_store@ =~= ok_values(built@));
                        self.policy_engine.put(key.duplicate(), to_store)
                    },
                    None => {},
                }
            },
            _ => {},
        }
    }
}

/// How far a stream has got: chunks sent, whether the terminal `done` chunk
/// was seen, and when the first chunk went out.
#[derive(Debug, Clone, Copy, PartialEq, Eq)]
pub struct StreamTracker {
    pub chunk_count: u64,
    pub done_seen: bool,
    pub ttft_ms: Option<u64>,
}

/// How a stream ended.
#[derive(Debug, Clone, PartialEq, Eq)]
pub enum StreamTerminal {
    /// The `done` chunk went out.
    Done,
    /// A chunk was an error: it is forwarded and the stream ends.
    GrpcError,
    /// The chunks ran out without `done`: the stream ends with this error.
    MissingDone(RpcStatus),
}

impl StreamTerminal {
    /// The terminal label written to the stream record.
    pub fn label(&self) -> (s: &'static str)
        ensures
            s@ == match *self {
                StreamTerminal::Done => "done"@,
                StreamTerminal::GrpcError => "grpc_error"@,
                StreamTerminal::MissingDone(_) => "missing_done"@,
            },
    {
        match self {
            StreamTerminal::Done => "done",
            StreamTerminal::GrpcError => "grpc_error",
            StreamTerminal::MissingDone(_) => "missing_done",
        }
    }
}

/// The pause between two forwarded chunks.
pub const STREAM_CHUNK_DELAY_MS: u64 = 35;

impl StreamTracker {
    /// A stream before its first chunk.
    pub fn new() -> (t: Self)
        ensures
            t.chunk_count == 0,
            !t.done_seen,
            t.ttft_ms is None,
    {
        StreamTracker { chunk_count: 0, done_seen: false, ttft_ms: None }
    }

    /// Account for a forwarded chunk at `elapsed_ms`; returns whether it was
    /// the first and the pause to take after it (none after `done`).
    pub fn on_chunk(&mut self, done: bool, elapsed_ms: u64) -> (r: (bool, u64))
        ensures
            final(self).chunk_count == if old(self).chunk_count == u64::MAX {
                u64::MAX
            } else {
                (old(self).chunk_count + 1) as u64
            },
            r.0 == (old(self).chunk_count == 0),
            final(self).ttft_ms == if old(self).chunk_count == 0 {
                Some(elapsed_ms)
            } else {
                old(self).ttft_ms
            },
            final(self).done_seen == (old(self).done_seen || done),
            r.1 == if done {
                0
            } else {
                STREAM_CHUNK_DELAY_MS
            },
    {
        let first = self.chunk_count == 0;
        if self.chunk_count < u64::MAX {
            self.chunk_count = self.chunk_count + 1;
        }
        if first {
            self.ttft_ms = Some(elapsed_ms);
        }
        if done {
            self.done_seen = true;
        }
        (first, if done {
            0
        } else {
            STREAM_CHUNK_DELAY_MS
        })
    }

    /// How the stream ends once its chunks ran out.
    pub fn finish(&self) -> (t: StreamTerminal)
        ensures
            self.done_seen ==> t == StreamTerminal::Done,
            !self.done_seen ==> (t matches StreamTerminal::MissingDone(s) && s.code == RpcCode::Internal
                && s.message@ == "incomplete inference stream: missing final done chunk"@),
    {
        if self.done_seen {
            StreamTerminal::Done
        } else {
            StreamTerminal::MissingDone(
                RpcStatus {
                    code: RpcCode::Internal,
                    message: String::from_str("incomplete inference stream: missing final done chunk"),
                },
            )
        }
    }
}

/// The terminal-time metrics context of a stream.
pub fn terminal_otlp_ctx(
    ttft_ms: Option<u64>,
    approval_outcome: &Option<String>,
    error_type: Option<&str>,
) -> (c: crate::otlp_metrics::TerminalOtlpContext)
    ensures
        c.ttft_ms == ttft_ms,
        c.approval_outcome == *approval_outcome,
        match error_type {
            Some(e) => c.error_type matches Some(s) && s@ == e@,
            None => c.error_type is None,
        },
        c.broker_inference_outcome is None,
        c.load_duration_ms is None,
{
    crate::otlp_metrics::TerminalOtlpContext {
        ttft_ms,
        approval_outcome: match approval_outcome {
            Some(a) => Some(a.clone()),
            None => None,
        },
        error_type: match error_type {
            Some(e) => Some(String::from_str(e)),
            None => None,
        },
        broker_inference_outcome: None,
        load_duration_ms: None,
    }
}


// ---------------------------------------------------------------------------
// Broker RPC answers
// ---------------------------------------------------------------------------

/// The answer to `BrokerExecShell`.
#[derive(Debug, Clone)]
pub struct BrokerExecShellResponse {
    pub ok: bool,
    pub stdout: String,
    pub stderr: String,
    pub error: String,
}

/// The answer to `BrokerSavePlan` and `BrokerWriteFile`.
#[derive(Debug, Clone)]
pub struct BrokerAckResponse {
    pub ok: bool,
    pub error: String,
}

/// The answer to `BrokerListDir`.
#[derive(Debug, Clone)]
pub struct BrokerListDirResponse {
    pub ok: bool,
    pub entries: Vec<crate::broker::BrokerDirEntry>,
    pub error: String,
}

/// The answer to `BrokerReadFile`.
#[derive(Debug, Clone)]
pub struct BrokerReadFileResponse {
    pub ok: bool,
    pub content: String,
    pub error: String,
}

/// The answer to a shell request: its output, or the error's text.
pub fn exec_shell_response(r: Result<crate::broker::ShellResult, crate::broker::BrokerError>) -> (a:
    BrokerExecShellResponse)
    ensures
        match r {
            Ok(res) => a.ok && a.stdout == res.stdout && a.stderr == res.stderr && a.error@
                == Seq::<char>::empty(),
            Err(e) => !a.ok && a.stdout@ == Seq::<char>::empty() && a.stderr@ == Seq::<char>::empty()
                && a.error@ == crate::broker::broker_error_message(e),
        },
{
    match r {
        Ok(res) => BrokerExecShellResponse {
            ok: true,
            stdout: res.stdout,
            stderr: res.stderr,
            error: String::new(),
        },
        Err(e) => BrokerExecShellResponse {
            ok: false,
            stdout: String::new(),
            stderr: String::new(),
            error: e.message(),
        },
    }
}

/// The answer to a write or plan save.
pub fn ack_response(r: Result<(), crate::broker::BrokerError>) -> (a: BrokerAckResponse)
    ensures
        match r {
            Ok(()) => a.ok && a.error@ == Seq::<char>::empty(),
            Err(e) => !a.ok && a.error@ == crate::broker::broker_error_message(e),
        },
{
    match r {
        Ok(()) => BrokerAckResponse { ok: true, error: String::new() },
        Err(e) => BrokerAckResponse { ok: false, error: e.message() },
    }
}

/// The answer to a directory listing.
pub fn list_dir_response(r: Result<Vec<crate::broker::BrokerDirEntry>, crate::broker::BrokerError>) -> (a:
    BrokerListDirResponse)
    ensures
        match r {
            Ok(entries) => a.ok && a.entries == entries && a.error@ == Seq::<char>::empty(),
            Err(e) => !a.ok && a.entries@.len() == 0 && a.error@ == crate::broker::broker_error_message(
                e,
            ),
        },
{
    match r {
        Ok(entries) => BrokerListDirResponse { ok: true, entries, error: String::new() },
        Err(e) => BrokerListDirResponse { ok: false, entries: Vec::new(), error: e.message() },
    }
}

/// The answer to a file read.
pub fn read_file_response(r: Result<String, crate::broker::BrokerError>) -> (a: BrokerReadFileResponse)
    ensures
        match r {
            Ok(content) => a.ok && a.content == content && a.error@ == Seq::<char>::empty(),
            Err(e) => !a.ok && a.content@ == Seq::<char>::empty() && a.error@
                == crate::broker::broker_error_message(e),
        },
{
    match r {
        Ok(content) => BrokerReadFileResponse { ok: true, content, error: String::new() },
        Err(e) => BrokerReadFileResponse { ok: false, content: String::new(), error: e.message() },
    }
}

/// The number of messages a broker inference request carries: its
/// messages, else one for a non-blank prompt.
pub fn broker_message_count(messages: usize, prompt: &str) -> (n: usize)
    ensures
        n == if messages > 0 {
            messages as int
        } else if trim(prompt@).len() > 0 {
            1
        } else {
            0
        },
{
    if messages > 0 {
        messages
    } else if trim_vec(&chars_of(prompt)).len() > 0 {
        1
    } else {
        0
    }
}

/// The line logged when the access policy or the broker refuses a request.
pub fn broker_deny_log_line(
    capability: &str,
    mode: &str,
    subject: &str,
    err: &crate::broker::BrokerError,
) -> (s: String)
    ensures
        s@ == match *err {
            crate::broker::BrokerError::PolicyDenied { code, message } => "broker.access_policy=deny capability="@
                + capability@ + " mode="@ + mode@ + " code="@ + code@ + " subject="@ + subject@
                + " error="@ + message@,
            _ => "broker.access_policy=deny capability="@ + capability@ + " mode="@ + mode@
                + " subject="@ + subject@ + " error="@ + crate::broker::broker_error_message(*err),
        },
{
    let head = String::from_str("broker.access_policy=deny capability=").concat(capability).concat(
        " mode=",
    ).concat(mode);
    match err {
        crate::broker::BrokerError::PolicyDenied { code, message } => head.concat(" code=").concat(
            code.as_str(),
        ).concat(" subject=").concat(subject).concat(" error=").concat(message.as_str()),
        _ => head.concat(" subject=").concat(subject).concat(" error=").concat(
            err.message().as_str(),
        ),
    }
}

/// Inference runs on the local runtime when the harness runs directly or
/// the host sidecar is disabled; otherwise on the sidecar.
pub fn runs_locally(harness_only: bool, sidecar_enabled: bool) -> (b: bool)
    ensures
        b == (harness_only || !sidecar_enabled),
{
    harness_only || !sidecar_enabled
}

/// The error of a sidecar that could not be reached.
pub fn sidecar_connect_failed(err: &str) -> (s: RpcStatus)
    ensures
        s.code == RpcCode::Unavailable,
        s.message@ == "sidecar connect failed: "@ + err@,
{
    RpcStatus { code: RpcCode::Unavailable, message: String::from_str("sidecar connect failed: ").concat(err) }
}

/// The error of a sidecar turn that failed.
pub fn sidecar_run_turn_failed(err: &str) -> (s: RpcStatus)
    ensures
        s.code == RpcCode::Internal,
        s.message@ == "sidecar RunTurn failed: "@ + err@,
{
    RpcStatus { code: RpcCode::Internal, message: String::from_str("sidecar RunTurn failed: ").concat(err) }
}

/// The daemon's status answer.
#[derive(Debug, Clone)]
pub struct SystemStatus {
    pub daemon_version: String,
    pub uptime_seconds: u64,
    pub active_model_id: String,
}

/// The status answer after `uptime_seconds` of running: the daemon version
/// and the configured model, else the built-in one.
pub fn system_status(uptime_seconds: u64, settings: &Settings) -> (s: SystemStatus)
    ensures
        s.daemon_version@ == crate::domain::DAEMON_VERSION@,
        s.uptime_seconds == uptime_seconds,
        s.active_model_id@ == if trim(settings.inference_model@).len() == 0 {
            crate::domain::ACTIVE_MODEL_ID@
        } else {
            trim(settings.inference_model@)
        },
{
    let m = trim_vec(&chars_of(settings.inference_model.as_str()));
    SystemStatus {
        daemon_version: String::from_str(crate::domain::DAEMON_VERSION),
        uptime_seconds,
        active_model_id: if m.len() == 0 {
            String::from_str(crate::domain::ACTIVE_MODEL_ID)
        } else {
            string_of(&m)
        },
    }
}


/// A copy of pipeline metrics.
fn copy_metrics(m: &crate::plugins::PipelineMetrics) -> (r: crate::plugins::PipelineMetrics)
    ensures
        r == *m,
{
    crate::plugins::PipelineMetrics {
        prompt_tokens: m.prompt_tokens,
        selected_context_tokens: m.selected_context_tokens,
        context_candidates: m.context_candidates,
        context_selected: m.context_selected,
        context_truncated: m.context_truncated,
        cache_status: m.cache_status,
        behavior_decision: match &m.behavior_decision {
            BehaviorDecision::Allow => BehaviorDecision::Allow,
            BehaviorDecision::Suppress { reason } => BehaviorDecision::Suppress { reason },
        },
        retrieval: m.retrieval,
        compression_strategy: m.compression_strategy,
        knowledge_status: m.knowledge_status,
    }
}

impl StreamSetup {
    /// The response-cache state logged for the stream: `hit` for a cached
    /// answer, `miss` for a lookup that missed, none without a lookup.
    pub fn l1_state(&self) -> (s: Option<&'static str>)
        ensures
            self.source is Cached ==> (s is Some && s->Some_0@ == "hit"@),
            !(self.source is Cached) && self.decision is Lookup ==> (s is Some && s->Some_0@
                == "miss"@),
            !(self.source is Cached) && !(self.decision is Lookup) ==> s is None,
    {
        match &self.source {
            ChunkSource::Cached(_) => Some("hit"),
            _ => match &self.decision {
                CacheDecision::Lookup(_) => Some("miss"),
                _ => None,
            },
        }
    }

    /// What the observability store keeps of the stream, before it ends.
    pub fn economics_draft(&self, snapshot_id: String) -> (d: crate::observability::StreamEconomicsDraft)
        ensures
            d.snapshot_id == snapshot_id,
            d.request_id == self.request_id,
            d.trace_id == self.trace_id,
            d.turn_id == self.correlation.turn_id,
            d.route == self.route_label,
            d.cache_decision@ == crate::policy::CacheDecisionState::label_spec(self.cache_state),
            d.decision_id == self.decision_id,
            d.inference_runtime@ == crate::adapters::runtime_label(self.runtime),
            d.mode == self.log_mode,
            d.model == self.log_model,
            d.metrics == self.pipeline.metrics,
            d.approval_outcome == self.approval_outcome,
    {
        crate::observability::StreamEconomicsDraft {
            snapshot_id,
            request_id: self.request_id,
            trace_id: self.trace_id.clone(),
            turn_id: self.correlation.turn_id.clone(),
            route: self.route_label.clone(),
            cache_decision: String::from_str(self.cache_state.label()),
            decision_id: self.decision_id.clone(),
            inference_runtime: String::from_str(self.runtime.log_label()),
            mode: self.log_mode.clone(),
            model: self.log_model.clone(),
            metrics: copy_metrics(&self.pipeline.metrics),
            approval_outcome: match &self.approval_outcome {
                Some(a) => Some(a.clone()),
                None => None,
            },
        }
    }
}

} // verus!
