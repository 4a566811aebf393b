//! What the daemon sends the host sidecar for a turn and how the sidecar's
//! chunks become stream chunks. The gRPC connection is at the edge of the
//! program.
use vstd::prelude::*;

use crate::adapters::{RpcStatus, StreamInferenceResponse};
use crate::turn_correlation::TurnCorrelation;

verus! {

/// A `RunTurn` request.
#[derive(Debug, Clone)]
pub struct RunTurnRequest {
    pub prompt: String,
    pub mode: String,
    pub model: String,
    pub turn_id: String,
    pub context_revision: String,
}

/// One chunk of a sidecar turn.
#[derive(Debug, Clone)]
pub struct RunTurnChunk {
    pub text: String,
    pub index: u64,
    pub done: bool,
    pub event: String,
    pub tool_name: String,
    pub phase: String,
    pub summary: String,
    pub detail: String,
}

/// The request for a turn, carrying the turn's correlation ids.
pub fn run_turn_request(prompt: &str, mode: &str, model: &str, correlation: &TurnCorrelation) -> (r:
    RunTurnRequest)
    ensures
        r.prompt@ == prompt@,
        r.mode@ == mode@,
        r.model@ == model@,
        r.turn_id == correlation.turn_id,
        r.context_revision == correlation.context_revision,
{
    RunTurnRequest {
        prompt: String::from_str(prompt),
        mode: String::from_str(mode),
        model: String::from_str(model),
        turn_id: correlation.turn_id.clone(),
        context_revision: correlation.context_revision.clone(),
    }
}

/// A sidecar chunk as a stream chunk, field for field (the fields the
/// sidecar does not send are empty).
pub open spec fn mapped_chunk(c: RunTurnChunk, r: StreamInferenceResponse) -> bool {
    &&& r.text == c.text
    &&& r.index == c.index
    &&& r.done == c.done
    &&& r.event == c.event
    &&& r.tool_name == c.tool_name
    &&& r.phase == c.phase
    &&& r.summary == c.summary
    &&& r.detail == c.detail
    &&& r.turn_id@ == Seq::<char>::empty()
    &&& r.tool_call_id@ == Seq::<char>::empty()
    &&& r.elapsed_ms == 0
}

/// Map one sidecar chunk.
pub fn map_run_turn_chunk(chunk: RunTurnChunk) -> (r: StreamInferenceResponse)
    ensures
        mapped_chunk(chunk, r),
{
    StreamInferenceResponse {
        text: chunk.text,
        index: chunk.index,
        done: chunk.done,
        event: chunk.event,
        turn_id: String::new(),
        tool_name: chunk.tool_name,
        phase: chunk.phase,
        summary: chunk.summary,
        detail: chunk.detail,
        tool_call_id: String::new(),
        elapsed_ms: 0,
    }
}

/// Map a collected sidecar turn, chunk for chunk.
pub fn map_sidecar_to_inference_chunks(chunks: Vec<RunTurnChunk>) -> (r: Vec<
    Result<StreamInferenceResponse, RpcStatus>,
>)
    ensures
        r@.len() == chunks@.len(),
        forall|i: int|
            0 <= i < chunks@.len() ==> (#[trigger] r@[i]) is Ok && mapped_chunk(
                chunks@[i],
                r@[i]->Ok_0,
            ),
{
    let mut r: Vec<Result<StreamInferenceResponse, RpcStatus>> = Vec::new();
    let mut i: usize = 0;
    while i < chunks.len()
        invariant
            i <= chunks.len(),
            r@.len() == i,
            forall|k: int|
                0 <= k < i ==> (#[trigger] r@[k]) is Ok && mapped_chunk(chunks@[k], r@[k]->Ok_0),
        decreases chunks.len() - i,
    {
        let c = &chunks[i];
        let copy = RunTurnChunk {
            text: c.text.clone(),
            index: c.index,
            done: c.done,
            event: c.event.clone(),
            tool_name: c.tool_name.clone(),
            phase: c.phase.clone(),
            summary: c.summary.clone(),
            detail: c.detail.clone(),
        };
        r.push(Ok(map_run_turn_chunk(copy)));
        i = i + 1;
    }
    r
}

} // verus!
