//! Core logic of an OpenAI-compatible LLM API gateway: provider request and
//! response conversion, server-sent-event framing, routing strategies,
//! cooldown and retry decisions, caching, rate limiting and key handling.

pub mod text;
pub mod strmap;
pub mod clock;
pub mod config;
pub mod router;
pub mod cache;
pub mod router_strategy;
pub mod types;
pub mod provider;
pub mod streaming;
pub mod sse;
pub mod resilience;
pub mod hooks;
pub mod metrics;
pub mod digest;
pub mod response_cache;
pub mod auth;
pub mod error;
pub mod gateway;
pub mod extractors;
pub mod encryptor;
pub mod secret;
pub mod handler;
