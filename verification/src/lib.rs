use vstd::prelude::*;

pub mod access_policy;
pub mod activity;
pub mod adapters;
pub mod advisory_intent;
pub mod approvals;
pub mod broker;
pub mod broker_inference;
pub mod daemon;
pub mod desktop;
pub mod doc_manifest;
pub mod domain;
pub mod gateway_supervisor;
pub mod http_openai_compat;
pub mod knowledge;
pub mod l1_cache;
pub mod observability;
pub mod ollama_capability;
pub mod omlx_supervisor;
pub mod order;
pub mod otlp_metrics;
pub mod path;
pub mod plugins;
pub mod policy;
pub mod read_api;
pub mod routing;
pub mod service;
pub mod session_store;
pub mod session_title;
pub mod settings;
pub mod sidecar_client;
pub mod sidecar_observability;
pub mod text;
pub mod sidecar_config;
pub mod supervisor;
pub mod tool_approval;
pub mod turn_correlation;
