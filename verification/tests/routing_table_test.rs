use std::sync::atomic::Ordering;

use stellarconduit_core::metrics::Metrics;
use stellarconduit_core::peer::identity::PeerIdentity;
use stellarconduit_core::router::table::RoutingTable;

fn peer(b: u8) -> PeerIdentity {
    PeerIdentity::new([b; 32])
}

fn dest(b: u8) -> [u8; 32] {
    [b; 32]
}

#[test]
fn test_routing_table_miss_on_empty() {
    let metrics = Metrics::new();
    let mut table = RoutingTable::new(16, metrics.clone());
    assert!(table.lookup(&dest(0xAA)).is_none());
    assert_eq!(metrics.routing_table_misses.load(Ordering::Relaxed), 1);
    assert_eq!(metrics.routing_table_hits.load(Ordering::Relaxed), 0);
}

#[test]
fn test_routing_table_hit_after_insert() {
    let metrics = Metrics::new();
    let mut table = RoutingTable::new(16, metrics.clone());
    table.insert(dest(0xBB), vec![peer(0x01), peer(0x02)]);
    let hops = table.lookup(&dest(0xBB)).unwrap();
    assert_eq!(hops.len(), 2);
    assert_eq!(metrics.routing_table_hits.load(Ordering::Relaxed), 1);
    assert_eq!(metrics.routing_table_misses.load(Ordering::Relaxed), 0);
}

#[test]
fn test_routing_table_refresh_increments_counter() {
    let metrics = Metrics::new();
    let mut table = RoutingTable::new(16, metrics.clone());
    table.refresh(vec![
        (dest(0x01), vec![peer(0xAA)]),
        (dest(0x02), vec![peer(0xBB)]),
    ]);
    assert_eq!(metrics.routing_table_refreshes.load(Ordering::Relaxed), 1);
    assert_eq!(table.len(), 2);
    table.refresh(vec![(dest(0x03), vec![peer(0xCC)])]);
    assert_eq!(metrics.routing_table_refreshes.load(Ordering::Relaxed), 2);
}

#[test]
fn test_routing_table_lru_eviction() {
    let metrics = Metrics::new();
    let mut table = RoutingTable::new(2, metrics.clone());
    table.insert(dest(0x01), vec![peer(0xAA)]);
    table.insert(dest(0x02), vec![peer(0xBB)]);
    // Access 0x01 to keep it hot
    let _ = table.lookup(&dest(0x01));
    // Insert 0x03 — should evict the LRU entry (0x02)
    table.insert(dest(0x03), vec![peer(0xCC)]);
    assert!(table.lookup(&dest(0x01)).is_some());
    assert!(table.lookup(&dest(0x02)).is_none());
}

#[test]
fn insert_overwrites_existing_route() {
    let metrics = Metrics::new();
    let mut table = RoutingTable::new(4, metrics);
    assert!(table.is_empty());
    table.insert(dest(0x09), vec![peer(0x01)]);
    table.insert(dest(0x09), vec![peer(0x02), peer(0x03)]);
    assert_eq!(table.len(), 1);
    assert_eq!(table.lookup(&dest(0x09)).unwrap(), vec![peer(0x02), peer(0x03)]);
}
