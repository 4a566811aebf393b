//! Daemon-owned agent execution approval seam: the single decision point for
//! whether an `agent`-mode request may proceed.
use vstd::prelude::*;

use crate::adapters::RuntimeKind;
use crate::settings::Settings;
use crate::text::{chars_of, trim, trim_vec};

verus! {

/// Per-request inputs an approval policy may inspect when authorizing `agent` mode.
#[derive(Debug, Clone, PartialEq, Eq)]
pub struct ApprovalContext {
    /// Raw mode string from the request.
    pub mode: String,
    /// Inference runtime selected for this request.
    pub runtime: RuntimeKind,
    /// Client-supplied approval id when the user approved in the extension UI.
    pub approval_id: Option<String>,
}

/// Outcome of an approval check.
#[derive(Debug, Clone, PartialEq, Eq)]
pub enum ApprovalDecision {
    Allow,
    Deny { reason: String },
    Checkpoint { reason: String },
}

/// Authorizes `agent`-mode requests.
pub trait ApprovalGate {
    /// `d` is a decision this policy may take for `ctx`; a policy that says
    /// nothing more may take any.
    open spec fn decides(&self, ctx: ApprovalContext, d: ApprovalDecision) -> bool {
        true
    }

    fn check(&self, ctx: &ApprovalContext) -> (d: ApprovalDecision)
        ensures
            self.decides(*ctx, d),
    ;
}

/// No-op gate: every `agent`-mode request is allowed.
pub struct AlwaysAllow;

impl ApprovalGate for AlwaysAllow {
    open spec fn decides(&self, ctx: ApprovalContext, d: ApprovalDecision) -> bool {
        d == ApprovalDecision::Allow
    }

    fn check(&self, ctx: &ApprovalContext) -> (d: ApprovalDecision)
        ensures
            d == ApprovalDecision::Allow,
    {
        ApprovalDecision::Allow
    }
}

/// Enforcement gate: denies `agent` requests without a non-blank approval id.
pub struct EnforceWithoutContext;

/// Stable deny reason returned by [`EnforceWithoutContext`].
pub const ENFORCEMENT_DENY_REASON: &'static str =
    "agent.approvals_enabled is true and no approval context supplied for agent mode";

/// The request carries a non-blank approval id.
pub open spec fn has_approval_id(ctx: ApprovalContext) -> bool {
    match ctx.approval_id {
        Some(id) => trim(id@).len() > 0,
        None => false,
    }
}

/// The decision of [`EnforceWithoutContext`]: allow with an approval id, else
/// deny with the stable reason.
pub open spec fn enforced_decision(ctx: ApprovalContext, d: ApprovalDecision) -> bool {
    if has_approval_id(ctx) {
        d == ApprovalDecision::Allow
    } else {
        d matches ApprovalDecision::Deny { reason } && reason@ == ENFORCEMENT_DENY_REASON@
    }
}

impl ApprovalGate for EnforceWithoutContext {
    open spec fn decides(&self, ctx: ApprovalContext, d: ApprovalDecision) -> bool {
        enforced_decision(ctx, d)
    }

    fn check(&self, ctx: &ApprovalContext) -> (d: ApprovalDecision)
        ensures
            has_approval_id(*ctx) ==> d == ApprovalDecision::Allow,
            !has_approval_id(*ctx) ==> (d matches ApprovalDecision::Deny { reason }
                && reason@ == ENFORCEMENT_DENY_REASON@),
    {
        let present = match &ctx.approval_id {
            Some(id) => trim_vec(&chars_of(id.as_str())).len() > 0,
            None => false,
        };
        if present {
            return ApprovalDecision::Allow;
        }
        ApprovalDecision::Deny { reason: String::from_str(ENFORCEMENT_DENY_REASON) }
    }
}

/// The approval policy the daemon starts with: enforcement when `agent.approvals_enabled`
/// is set, otherwise every request is allowed.
pub enum ConfiguredGate {
    AlwaysAllow(AlwaysAllow),
    Enforce(EnforceWithoutContext),
}

impl ApprovalGate for ConfiguredGate {
    open spec fn decides(&self, ctx: ApprovalContext, d: ApprovalDecision) -> bool {
        match self {
            ConfiguredGate::AlwaysAllow(_) => d == ApprovalDecision::Allow,
            ConfiguredGate::Enforce(_) => enforced_decision(ctx, d),
        }
    }

    fn check(&self, ctx: &ApprovalContext) -> (d: ApprovalDecision)
        ensures
            self is AlwaysAllow ==> d == ApprovalDecision::Allow,
            self is Enforce && has_approval_id(*ctx) ==> d == ApprovalDecision::Allow,
            self is Enforce && !has_approval_id(*ctx) ==> (d matches ApprovalDecision::Deny {
                reason,
            } && reason@ == ENFORCEMENT_DENY_REASON@),
    {
        match self {
            ConfiguredGate::AlwaysAllow(g) => g.check(ctx),
            ConfiguredGate::Enforce(g) => g.check(ctx),
        }
    }
}

/// Selects the daemon's startup gate from `agent.approvals_enabled`.
pub fn approval_gate_from_config(settings: &Settings) -> (g: ConfiguredGate)
    ensures
        settings.approvals_enabled <==> g is Enforce,
{
    if settings.approvals_enabled {
        ConfiguredGate::Enforce(EnforceWithoutContext)
    } else {
        ConfiguredGate::AlwaysAllow(AlwaysAllow)
    }
}

} // verus!
