//! Sidecar fleet configuration: the host sidecar slot and the capability
//! sidecars, as the configuration describes them.
use vstd::prelude::*;

use crate::settings::{CapabilitySidecarEntry, Settings};
use crate::text::{chars_of, string_of};

verus! {

#[derive(Debug, Clone)]
pub struct SidecarProcessConfig {
    pub name: String,
    pub enabled: bool,
    pub required: bool,
    pub binary: String,
    pub socket_path: String,
    pub is_capability: bool,
}

#[derive(Debug, Clone)]
pub struct SidecarFleetConfig {
    pub host: SidecarProcessConfig,
    pub capabilities: Vec<SidecarProcessConfig>,
}

/// Host sidecar settings for callers that only need the active host slot.
#[derive(Debug, Clone)]
pub struct SidecarConfig {
    pub enabled: bool,
    pub required: bool,
    pub socket_path: String,
}

/// The process configuration of a capability sidecar entry: required only
/// when asked for and enabled.
pub open spec fn capability_process(e: CapabilitySidecarEntry, p: SidecarProcessConfig) -> bool {
    &&& p.name@ == e.name@
    &&& p.enabled == e.enabled
    &&& p.required == (e.required == Some(true) && e.enabled)
    &&& p.binary@ == e.binary@
    &&& p.socket_path@ == e.socket@
    &&& p.is_capability
}

fn copy_text(s: &String) -> (r: String)
    ensures
        r@ == s@,
{
    string_of(&chars_of(s.as_str()))
}

fn capability_entry_to_process(entry: &CapabilitySidecarEntry) -> (p: SidecarProcessConfig)
    ensures
        capability_process(*entry, p),
{
    SidecarProcessConfig {
        name: copy_text(&entry.name),
        enabled: entry.enabled,
        required: match entry.required {
            Some(r) => r,
            None => false,
        } && entry.enabled,
        binary: copy_text(&entry.binary),
        socket_path: copy_text(&entry.socket),
        is_capability: true,
    }
}

/// The fleet is the disabled stub slot with no capabilities.
pub open spec fn is_disabled_fleet(f: SidecarFleetConfig, settings: Settings) -> bool {
    &&& f.host.name@ == "stub"@
    &&& !f.host.enabled
    &&& !f.host.required
    &&& f.host.binary@ == "rex-sidecar-stub"@
    &&& f.host.socket_path@ == settings.default_sidecar_socket@
    &&& !f.host.is_capability
    &&& f.capabilities@.len() == 0
}

impl SidecarFleetConfig {
    /// The fleet the configuration describes: none in direct-harness mode or
    /// without an active host slot; else the host (required unless the
    /// configuration says otherwise, and only when enabled) and every
    /// capability sidecar.
    pub fn from_config(settings: &Settings) -> (f: Self)
        ensures
            settings.sidecar_harness_direct || settings.active_sidecar is None ==> is_disabled_fleet(
                f,
                *settings,
            ),
            !settings.sidecar_harness_direct && settings.active_sidecar is Some ==> ({
                let e = settings.active_sidecar->0;
                &&& f.host.name@ == e.name@
                &&& f.host.enabled == e.enabled
                &&& f.host.required == (settings.sidecars_required != Some(false) && e.enabled)
                &&& f.host.binary@ == e.binary@
                &&& f.host.socket_path@ == e.socket@
                &&& !f.host.is_capability
                &&& f.capabilities@.len() == settings.capability_sidecars@.len()
                &&& forall|i: int|
                    0 <= i < f.capabilities@.len() ==> capability_process(
                        settings.capability_sidecars@[i],
                        #[trigger] f.capabilities@[i],
                    )
            }),
    {
        if settings.sidecar_harness_direct {
            return Self::disabled(settings);
        }
        let entry = match &settings.active_sidecar {
            Some(e) => e,
            None => return Self::disabled(settings),
        };
        let host_required = match settings.sidecars_required {
            Some(r) => r,
            None => true,
        } && entry.enabled;
        let host = SidecarProcessConfig {
            name: copy_text(&entry.name),
            enabled: entry.enabled,
            required: host_required,
            binary: copy_text(&entry.binary),
            socket_path: copy_text(&entry.socket),
            is_capability: false,
        };
        let caps = &settings.capability_sidecars;
        let mut capabilities: Vec<SidecarProcessConfig> = Vec::new();
        let mut i: usize = 0;
        while i < caps.len()
            invariant
                i <= caps.len(),
                caps == &settings.capability_sidecars,
                capabilities@.len() == i,
                forall|k: int|
                    0 <= k < i ==> capability_process(caps@[k], #[trigger] capabilities@[k]),
            decreases caps.len() - i,
        {
            capabilities.push(capability_entry_to_process(&caps[i]));
            i = i + 1;
        }
        SidecarFleetConfig { host, capabilities }
    }

    /// The disabled stub slot.
    fn disabled(settings: &Settings) -> (f: Self)
        ensures
            is_disabled_fleet(f, *settings),
    {
        SidecarFleetConfig {
            host: SidecarProcessConfig {
                name: String::from_str("stub"),
                enabled: false,
                required: false,
                binary: String::from_str("rex-sidecar-stub"),
                socket_path: copy_text(&settings.default_sidecar_socket),
                is_capability: false,
            },
            capabilities: Vec::new(),
        }
    }
}

impl SidecarConfig {
    /// The host-slot view of a process configuration.
    pub fn from_process(process: &SidecarProcessConfig) -> (c: Self)
        ensures
            c.enabled == process.enabled,
            c.required == process.required,
            c.socket_path@ == process.socket_path@,
    {
        SidecarConfig {
            enabled: process.enabled,
            required: process.required,
            socket_path: copy_text(&process.socket_path),
        }
    }
}

/// Whether the harness talks to the inference runtime directly (no sidecar).
pub fn sidecar_harness_direct(settings: &Settings) -> (b: bool)
    ensures
        b == settings.sidecar_harness_direct,
{
    settings.sidecar_harness_direct
}

/// `Some("direct")` in direct-harness mode.
pub fn parse_harness_only(settings: &Settings) -> (r: Option<&'static str>)
    ensures
        settings.sidecar_harness_direct ==> (r matches Some(s) && s@ == "direct"@),
        !settings.sidecar_harness_direct ==> r is None,
{
    if sidecar_harness_direct(settings) {
        Some("direct")
    } else {
        None
    }
}

} // verus!
