//! Inference routing: the runtime the configuration selects, with its log label.
use vstd::prelude::*;

use crate::adapters::{runtime_kind_of, runtime_label, RuntimeKind};
use crate::settings::Settings;

verus! {

#[derive(Debug, Clone, Copy, PartialEq, Eq)]
pub struct RouteDecision {
    pub runtime: RuntimeKind,
    pub label: &'static str,
}

/// Phase-1 router: the configured runtime, whatever the mode and model.
pub fn decide_route(mode: &str, model: &str, settings: &Settings) -> (d: RouteDecision)
    ensures
        d.runtime == runtime_kind_of(settings.inference_runtime@),
        d.label@ == runtime_label(d.runtime),
{
    let runtime = RuntimeKind::from_config(settings);
    RouteDecision { runtime, label: runtime.log_label() }
}

} // verus!
