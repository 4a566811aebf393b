//! Stream economics: the per-stream record the observability store keeps,
//! assembled from what the request path knew at its start and the terminal
//! outcome.
use vstd::prelude::*;

use crate::plugins::{PipelineMetrics, RetrievalDecision};
use crate::text::{chars_of, string_of};

verus! {

/// One stream's economics as stored.
#[derive(Debug, Clone, PartialEq, Eq)]
pub struct StreamEconomicsRecord {
    pub snapshot_id: String,
    pub request_id: u64,
    pub trace_id: String,
    pub turn_id: String,
    pub terminal: String,
    pub route: String,
    pub cache_decision: String,
    pub decision_id: String,
    pub inference_runtime: String,
    pub mode: String,
    pub model: String,
    pub elapsed_ms: u64,
    pub chunks_sent: u64,
    pub prompt_tokens: u64,
    pub context_tokens: u64,
    pub context_candidates: u64,
    pub context_selected: u64,
    pub context_truncated: bool,
    pub retrieval: String,
    pub compression_strategy: String,
    pub cached_tokens: Option<u64>,
    pub prefix_hash: Option<String>,
    pub parse_retries: Option<u64>,
}

/// What the request path knows of a stream before it ends.
#[derive(Clone)]
pub struct StreamEconomicsDraft {
    pub snapshot_id: String,
    pub request_id: u64,
    pub trace_id: String,
    pub turn_id: String,
    pub route: String,
    pub cache_decision: String,
    pub decision_id: String,
    pub inference_runtime: String,
    pub mode: String,
    pub model: String,
    pub metrics: PipelineMetrics,
    /// The approval outcome label for `agent` mode.
    pub approval_outcome: Option<String>,
}

/// The label of a retrieval decision.
pub open spec fn retrieval_label(r: RetrievalDecision) -> Seq<char> {
    match r {
        RetrievalDecision::Ran => "ran"@,
        RetrievalDecision::Skipped => "skipped"@,
        RetrievalDecision::AdvisoryBundle => "advisory_bundle"@,
    }
}

impl StreamEconomicsDraft {
    /// The stored record for the stream's terminal outcome.
    pub fn into_record(self, terminal: &str, elapsed_ms: u64, chunks_sent: u64) -> (r:
        StreamEconomicsRecord)
        requires
            self.metrics.prompt_tokens <= u64::MAX,
            self.metrics.selected_context_tokens <= u64::MAX,
            self.metrics.context_candidates <= u64::MAX,
            self.metrics.context_selected <= u64::MAX,
        ensures
            r.snapshot_id == self.snapshot_id,
            r.request_id == self.request_id,
            r.trace_id == self.trace_id,
            r.turn_id == self.turn_id,
            r.terminal@ == terminal@,
            r.route == self.route,
            r.cache_decision == self.cache_decision,
            r.decision_id == self.decision_id,
            r.inference_runtime == self.inference_runtime,
            r.mode == self.mode,
            r.model == self.model,
            r.elapsed_ms == elapsed_ms,
            r.chunks_sent == chunks_sent,
            r.prompt_tokens == self.metrics.prompt_tokens,
            r.context_tokens == self.metrics.selected_context_tokens,
            r.context_candidates == self.metrics.context_candidates,
            r.context_selected == self.metrics.context_selected,
            r.context_truncated == self.metrics.context_truncated,
            r.retrieval@ == retrieval_label(self.metrics.retrieval),
            r.compression_strategy@ == self.metrics.compression_strategy@,
            r.cached_tokens is None,
            r.prefix_hash is None,
            r.parse_retries is None,
    {
        let retrieval = String::from_str(self.metrics.retrieval.as_str());
        let strategy = String::from_str(self.metrics.compression_strategy);
        StreamEconomicsRecord {
            snapshot_id: self.snapshot_id,
            request_id: self.request_id,
            trace_id: self.trace_id,
            turn_id: self.turn_id,
            terminal: string_of(&chars_of(terminal)),
            route: self.route,
            cache_decision: self.cache_decision,
            decision_id: self.decision_id,
            inference_runtime: self.inference_runtime,
            mode: self.mode,
            model: self.model,
            elapsed_ms,
            chunks_sent,
            prompt_tokens: self.metrics.prompt_tokens as u64,
            context_tokens: self.metrics.selected_context_tokens as u64,
            context_candidates: self.metrics.context_candidates as u64,
            context_selected: self.metrics.context_selected as u64,
            context_truncated: self.metrics.context_truncated,
            retrieval,
            compression_strategy: strategy,
            cached_tokens: None,
            prefix_hash: None,
            parse_retries: None,
        }
    }
}

} // verus!
