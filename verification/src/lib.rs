//! A verified URL-shortening core: deterministic short-code derivation,
//! input validation, the authoritative mapping store with its
//! insert-if-absent conflict policy, the cache-aside resolution protocol,
//! and an admission gate that bounds request throughput.

pub mod cache;
pub mod codec;
pub mod errors;
pub mod gate;
pub mod laws;
pub mod service;
pub mod store;
pub mod types;
pub mod validate;
