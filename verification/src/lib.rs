//! Core mesh-networking logic of StellarConduit: peer bookkeeping, gossip
//! queues and anti-entropy sync, fanout sizing, duplicate suppression,
//! rate limiting, routing caches and power scheduling.
pub mod message;
pub mod gossip;
pub mod time;
pub mod keys;
pub mod text;
pub mod lru_cache;
pub mod peer;
pub mod discovery;
pub mod security;
pub mod relay;
pub mod router;
pub mod metrics;
pub mod transport;
