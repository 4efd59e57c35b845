//! RouterFuel: the decisions of a bring-your-own-key gateway for language-model providers.
//!
//! The crate holds what the gateway decides and computes: which provider and key a request is
//! billed to, what each provider is sent, when a provider is taken out of rotation, when a client
//! is slowed down or stopped, what is cached and under which key, and what is reported. Sockets,
//! files, the database and the embedding model live in the program around it.

pub mod calls;
pub mod circuit_breaker;
pub mod client_registry;
pub mod clock;
pub mod concurrency;
pub mod connectors;
pub mod csv;
pub mod digest;
pub mod embedder;
pub mod exchange;
pub mod flow;
pub mod gateway;
pub mod guardrails;
pub mod json;
pub mod money;
pub mod provider;
pub mod rate_limiter;
pub mod report;
pub mod semantic_cache;
pub mod shadow;
pub mod telemetry;
pub mod text;
pub mod tokenizer;
pub mod vision;
