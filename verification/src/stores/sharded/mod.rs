//! Caches that are split into shards, so that threads can use them side by side.
pub mod cache_laws;
pub mod hasher;
pub mod laws;
pub mod lock;
pub mod shard;
pub mod shared;
pub mod ttl;
pub mod ttl_store;
pub mod unbound;
pub mod unbound_store;
