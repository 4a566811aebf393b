//! Operator configuration as the daemon logic reads it.
//!
//! The loaded configuration file is turned into this plain-value record at the
//! edge of the program; every function of the library that depends on
//! configuration takes it as an argument.
use vstd::prelude::*;

verus! {

/// One capability sidecar slot as configured (`sidecars.capabilities[]`).
#[derive(Debug, Clone)]
pub struct CapabilitySidecarEntry {
    pub name: String,
    pub enabled: bool,
    pub required: Option<bool>,
    pub binary: String,
    pub socket: String,
}

/// The active host sidecar slot (`sidecars.list[active]`).
#[derive(Debug, Clone)]
pub struct SidecarEntry {
    pub name: String,
    pub enabled: bool,
    pub binary: String,
    pub socket: String,
}

/// Whether tool specs are sent to an OpenAI-compatible backend
/// (`inference.openai_compat.native_tools`).
#[derive(Debug, Clone, Copy, PartialEq, Eq, Structural)]
pub enum NativeToolsMode {
    /// Send them unless the backend is known not to take them.
    Auto,
    True,
    False,
}

/// `inference.openai_compat`, with the effective values the configuration
/// loader resolved.
#[derive(Debug, Clone)]
pub struct OpenAiCompatSettings {
    pub base_url: String,
    pub api_key: Option<String>,
    /// Extra request headers, in name order.
    pub headers: Vec<(String, String)>,
    pub model: String,
    /// `0` means the built-in default.
    pub timeout_secs: u64,
    pub native_tools: NativeToolsMode,
}

/// The configuration values the daemon logic depends on.
#[derive(Debug, Clone)]
pub struct Settings {
    /// Resolved workspace root, `None` when it cannot be resolved.
    pub workspace_root: Option<String>,
    /// `workspace.indexer`: `workspace` or `seeded`.
    pub workspace_indexer_mode: String,
    /// `inference.runtime` as written in the configuration.
    pub inference_runtime: String,
    /// `inference.model`, empty when unset.
    pub inference_model: String,
    pub search_enabled: bool,
    pub search_provider: String,
    pub search_max_results: usize,
    pub broker_max_tool_result_bytes: usize,
    pub broker_shell_allowlist: Vec<String>,
    pub max_prompt_tokens: usize,
    pub max_context_tokens: usize,
    pub advisory_intent_enabled: bool,
    pub knowledge_enabled: bool,
    pub context_paths: Vec<String>,
    pub approvals_enabled: bool,
    pub cache_bypass: bool,
    /// `sidecars.harness == "direct"`.
    pub sidecar_harness_direct: bool,
    /// `sidecars.required`, `None` when unset.
    pub sidecars_required: Option<bool>,
    pub active_sidecar: Option<SidecarEntry>,
    pub capability_sidecars: Vec<CapabilitySidecarEntry>,
    pub daemon_idle_shutdown_secs: u64,
    /// The socket of the built-in (disabled) sidecar slot.
    pub default_sidecar_socket: String,
    pub openai_compat: OpenAiCompatSettings,
}

impl Settings {
    /// The values the daemon runs with when no configuration file overrides them.
    pub fn defaults() -> (s: Settings)
        ensures
            s.workspace_root is None,
            s.workspace_indexer_mode@ == "workspace"@,
            s.inference_runtime@ == "mock"@,
            s.inference_model@ == Seq::<char>::empty(),
            !s.search_enabled,
            s.search_provider@ == "mock"@,
            s.search_max_results == 5,
            s.broker_max_tool_result_bytes == 16384,
            s.max_prompt_tokens == 512,
            s.max_context_tokens == 192,
            s.advisory_intent_enabled,
            !s.knowledge_enabled,
            s.context_paths@.len() == 0,
            !s.approvals_enabled,
            !s.cache_bypass,
            !s.sidecar_harness_direct,
            s.sidecars_required is None,
            s.active_sidecar is None,
            s.capability_sidecars@.len() == 0,
            s.daemon_idle_shutdown_secs == 0,
            s.default_sidecar_socket@ == "/tmp/rex-sidecar.sock"@,
            s.openai_compat.base_url@ == Seq::<char>::empty(),
            s.openai_compat.api_key is None,
            s.openai_compat.headers@.len() == 0,
            s.openai_compat.model@ == Seq::<char>::empty(),
            s.openai_compat.timeout_secs == 0,
            s.openai_compat.native_tools == NativeToolsMode::Auto,
    {
        let mut allow: Vec<String> = Vec::new();
        allow.push(String::from_str("echo"));
        allow.push(String::from_str("ls"));
        allow.push(String::from_str("cat"));
        allow.push(String::from_str("pwd"));
        allow.push(String::from_str("grep"));
        allow.push(String::from_str("head"));
        allow.push(String::from_str("tail"));
        allow.push(String::from_str("wc"));
        allow.push(String::from_str("git"));
        Settings {
            workspace_root: None,
            workspace_indexer_mode: String::from_str("workspace"),
            inference_runtime: String::from_str("mock"),
            inference_model: String::new(),
            search_enabled: false,
            search_provider: String::from_str("mock"),
            search_max_results: 5,
            broker_max_tool_result_bytes: 16384,
            broker_shell_allowlist: allow,
            max_prompt_tokens: 512,
            max_context_tokens: 192,
            advisory_intent_enabled: true,
            knowledge_enabled: false,
            context_paths: Vec::new(),
            approvals_enabled: false,
            cache_bypass: false,
            sidecar_harness_direct: false,
            sidecars_required: None,
            active_sidecar: None,
            capability_sidecars: Vec::new(),
            daemon_idle_shutdown_secs: 0,
            default_sidecar_socket: String::from_str("/tmp/rex-sidecar.sock"),
            openai_compat: OpenAiCompatSettings {
                base_url: String::new(),
                api_key: None,
                headers: Vec::new(),
                model: String::new(),
                timeout_secs: 0,
                native_tools: NativeToolsMode::Auto,
            },
        }
    }
}


/// The process's settings slot: the configuration once it has been loaded,
/// the defaults before that.
#[derive(Debug)]
pub struct SettingsRegistry {
    current: Option<Settings>,
    fallback: Settings,
}

impl SettingsRegistry {
    /// The configuration that was installed, if any.
    pub closed spec fn installed(&self) -> Option<Settings> {
        self.current
    }

    /// What reads give before a configuration is installed.
    pub closed spec fn fallback(&self) -> Settings {
        self.fallback
    }

    /// An empty slot that answers with the defaults.
    pub fn new() -> (r: Self)
        ensures
            r.installed() is None,
    {
        SettingsRegistry { current: None, fallback: Settings::defaults() }
    }

    /// Install the loaded configuration.
    pub fn init(&mut self, config: Settings)
        ensures
            final(self).installed() == Some(config),
            final(self).fallback() == old(self).fallback(),
    {
        self.current = Some(config);
    }

    /// The installed configuration, or the defaults.
    pub fn get(&self) -> (s: &Settings)
        ensures
            *s == match self.installed() {
                Some(c) => c,
                None => self.fallback(),
            },
    {
        match &self.current {
            Some(c) => c,
            None => &self.fallback,
        }
    }
}

/// Whether a configuration has been installed.
pub fn is_initialized(registry: &SettingsRegistry) -> (b: bool)
    ensures
        b == registry.installed() is Some,
{
    registry.current.is_some()
}

/// Forget the installed configuration (tests start from the defaults again).
pub fn reset_for_test(registry: &mut SettingsRegistry)
    ensures
        final(registry).installed() is None,
        final(registry).fallback() == old(registry).fallback(),
{
    registry.current = None;
}

} // verus!
