//! Shared observability counters.
use std::sync::atomic::AtomicU64;
use std::sync::Arc;
use vstd::prelude::*;

verus! {

/// Counters shared between components and read by monitoring.
pub struct Metrics {
    pub routing_table_hits: AtomicU64,
    pub routing_table_misses: AtomicU64,
    pub routing_table_refreshes: AtomicU64,
}

impl Metrics {
    /// Fresh counters at zero, ready to be shared.
    pub fn new() -> Arc<Metrics> {
        Arc::new(
            Metrics {
                routing_table_hits: AtomicU64::new(0),
                routing_table_misses: AtomicU64::new(0),
                routing_table_refreshes: AtomicU64::new(0),
            },
        )
    }
}

/// Adds one to a shared counter. Other threads may update it too, so nothing
/// is known of its value.
pub fn bump(counter: &AtomicU64) {
    counter.fetch_add(1, std::sync::atomic::Ordering::Relaxed);
}

} // verus!
