//! Core of a multi-tenant AI inference gateway.
//!
//! The crate holds the request-lifecycle engine: model routing with a
//! per-model circuit breaker and ordered fallback chains, the chat
//! completion state machine with tool-call governance, MCP federation
//! over stdio JSON-RPC, quota and token accounting, the confirm-session
//! and async-job stores, and the secret envelope used for stored API
//! keys. All I/O (HTTP, database, child processes) lives outside; the
//! functions here take plain values and return decisions.

pub mod a2a;
pub mod adapters;
pub mod admin;
pub mod auth;
pub mod breaker;
pub mod chat;
pub mod confirm;
pub mod crypto;
pub mod errors;
pub mod fallback;
pub mod federation;
pub mod ids;
pub mod jobs;
pub mod kv;
pub mod mcp;
pub mod quota;
pub mod registry;
pub mod sse;
pub mod stream;
pub mod strutil;
pub mod tokens;
pub mod transform;

pub use errors::GatewayError;
