//! A lease-arbitration library: a client, identified by an instance id,
//! requests a time-bounded exclusive lease over a named resource (an
//! application id). The engine grants, renews or rejects the request from
//! the current ownership state and the expiry timestamps, keeps an
//! authoritative in-memory cache of every decision, and persists decisions
//! either one by one (direct mode) or coalesced into atomic batches
//! (batching mode).

pub mod benchmark;
pub mod cache;
pub mod config;
pub mod context;
pub mod context_batching;
pub mod context_naive;
pub mod database;
pub mod errors;
pub mod http_api;
pub mod tcp_api;
pub mod utils;

pub use errors::{LldError, LldResult};
