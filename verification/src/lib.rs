//! A verified core for codex-shim: configuration, runtime metrics, the
//! Responses stream canonicalizer, request validation and the response store.
pub mod text;
pub mod clock;
pub mod json;
pub mod metrics;
pub mod profile;
pub mod config;
pub mod integration;
pub mod events;
pub mod canonicalizer;
pub mod validation;
pub mod relay;
pub mod chat;
pub mod store;
pub mod toml;
pub mod codex_config;
pub mod doctor;
pub mod setup;
pub mod stream_policy;
pub mod gui;
pub mod native_relay;
pub mod routes;
