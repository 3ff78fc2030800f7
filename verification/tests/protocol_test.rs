use stellarconduit_core::discovery::peer_list::PeerList;
use stellarconduit_core::gossip::bloom::SlidingBloomFilter;
use stellarconduit_core::gossip::protocol::{GossipLoopMetrics, GossipState, MACRO_MERGE_BATCH_SIZE};
use stellarconduit_core::message::types::{SyncRequest, SyncResponse, TransactionEnvelope};

/// A 1% false-positive rate, in parts per million.
const ONE_PERCENT: u32 = 10_000;

fn mock_envelope(id_byte: u8) -> TransactionEnvelope {
    TransactionEnvelope {
        message_id: [id_byte; 32],
        origin_pubkey: [0u8; 32],
        tx_xdr: format!("XDR{}", id_byte),
        ttl_hops: 10,
        timestamp: 0,
        signature: [0u8; 64],
    }
}

fn make_envelope(id: u8) -> TransactionEnvelope {
    TransactionEnvelope {
        message_id: [id; 32],
        origin_pubkey: [0u8; 32],
        tx_xdr: format!("XDR{}", id),
        ttl_hops: 10,
        timestamp: id as u64,
        signature: [0u8; 64],
    }
}

#[test]
fn test_generate_sync_request() {
    let mut state = GossipState::new();
    state.add_envelope(mock_envelope(0xAA));
    state.add_envelope(mock_envelope(0xBB));

    let req = state.generate_sync_request();
    assert_eq!(req.known_message_ids.len(), 2);
    assert_eq!(req.known_message_ids[0], [0xAA, 0xAA, 0xAA, 0xAA]);
    assert_eq!(req.known_message_ids[1], [0xBB, 0xBB, 0xBB, 0xBB]);
}

#[test]
fn test_handle_sync_request_delta_calculation() {
    let mut node_a = GossipState::new();
    node_a.add_envelope(mock_envelope(0xAA));
    node_a.add_envelope(mock_envelope(0xBB));

    let mut node_b = GossipState::new();
    node_b.add_envelope(mock_envelope(0xAA));

    let req = node_b.generate_sync_request();
    let resp = node_a.handle_sync_request(&req);

    assert_eq!(resp.missing_envelopes.len(), 1);
    assert_eq!(resp.missing_envelopes[0].message_id[0], 0xBB);
}

#[test]
fn test_handle_sync_response() {
    let mut state = GossipState::new();
    assert_eq!(state.active_queue.len(), 0);

    let resp = SyncResponse {
        missing_envelopes: vec![mock_envelope(0xCC)],
    };

    state.handle_sync_response(resp);
    assert_eq!(state.active_queue.len(), 1);
    assert_eq!(
        state
            .active_queue
            .iter_envelopes()
            .into_iter()
            .next()
            .unwrap()
            .message_id[0],
        0xCC
    );
}

#[test]
fn test_fanout_skips_banned_peers() {
    let mut pl = PeerList::new(300);
    let mut key_a = [0u8; 32];
    key_a[0] = 1;
    let mut key_b = [0u8; 32];
    key_b[0] = 2;
    let mut key_c = [0u8; 32];
    key_c[0] = 3;

    pl.insert_or_update(key_a, 80);
    pl.insert_or_update(key_b, 80);
    pl.insert_or_update(key_c, 80);
    pl.ban_peer(&key_b, 3600);

    let active: Vec<_> = pl
        .get_active_peers()
        .into_iter()
        .filter(|p| !p.is_banned)
        .map(|p| p.identity.clone())
        .collect();

    assert_eq!(active.len(), 2);
    assert!(active.iter().all(|p| p.pubkey != key_b));
}

#[test]
fn test_gossip_metrics_accumulate() {
    let mut metrics = GossipLoopMetrics::default();
    metrics.rounds_fired += 1;
    metrics.envelopes_forwarded += 3;
    metrics.rounds_fired += 1;
    metrics.envelopes_forwarded += 2;
    assert_eq!(metrics.rounds_fired, 2);
    assert_eq!(metrics.envelopes_forwarded, 5);
}

#[test]
fn test_bloom_prevents_rebroadcast() {
    let mut bloom = SlidingBloomFilter::new(10_000, ONE_PERCENT);
    let id = [0xABu8; 32];
    assert!(!bloom.check_and_add(&id)); // first time: new
    assert!(bloom.check_and_add(&id)); // second time: already seen
}

#[test]
fn test_anti_entropy_sync_request_contains_all_known_ids() {
    let mut state = GossipState::new();
    state.add_envelope(make_envelope(0x01));
    state.add_envelope(make_envelope(0x02));
    state.add_envelope(make_envelope(0x03));

    let req = state.generate_sync_request();
    assert_eq!(req.known_message_ids.len(), 3);

    for (i, prefix) in req.known_message_ids.iter().enumerate() {
        let expected_byte = (i + 1) as u8;
        assert_eq!(*prefix, [expected_byte; 4]);
    }
}

#[test]
fn test_anti_entropy_pull_delta_only_missing_envelopes() {
    let mut node_a = GossipState::new();
    node_a.add_envelope(make_envelope(0xAA));
    node_a.add_envelope(make_envelope(0xBB));
    node_a.add_envelope(make_envelope(0xCC));

    let mut node_b = GossipState::new();
    node_b.add_envelope(make_envelope(0xAA));

    let req: SyncRequest = node_b.generate_sync_request();
    let resp: SyncResponse = node_a.handle_sync_request(&req);

    // A should send B the two envelopes it doesn't have.
    assert_eq!(resp.missing_envelopes.len(), 2);
    let ids: Vec<u8> = resp
        .missing_envelopes
        .iter()
        .map(|e| e.message_id[0])
        .collect();
    assert!(ids.contains(&0xBB));
    assert!(ids.contains(&0xCC));
}

#[test]
fn test_anti_entropy_handle_sync_response_merges_into_queue() {
    let mut state = GossipState::new();
    state.add_envelope(make_envelope(0x10));

    let resp = SyncResponse {
        missing_envelopes: vec![make_envelope(0x20), make_envelope(0x30)],
    };
    state.handle_sync_response(resp);

    assert_eq!(state.active_queue.len(), 3);
}

#[test]
fn test_anti_entropy_sync_response_empty_no_panic() {
    let mut state = GossipState::new();
    let resp = SyncResponse {
        missing_envelopes: vec![],
    };
    state.handle_sync_response(resp);
    assert_eq!(state.active_queue.len(), 0);
}

#[test]
fn test_anti_entropy_macro_merge_uses_backlog() {
    let mut state = GossipState::new();

    // Build a response that exceeds the macro-merge threshold (500).
    let large_resp = SyncResponse {
        missing_envelopes: (0u16..501)
            .map(|i| TransactionEnvelope {
                message_id: {
                    let mut id = [0u8; 32];
                    id[0] = (i >> 8) as u8;
                    id[1] = (i & 0xFF) as u8;
                    id
                },
                origin_pubkey: [0u8; 32],
                tx_xdr: format!("XDR{}", i),
                ttl_hops: 10,
                timestamp: i as u64,
                signature: [0u8; 64],
            })
            .collect(),
    };

    state.handle_sync_response(large_resp);

    // Nothing should be in the active queue yet — all in the backlog.
    assert_eq!(state.active_queue.len(), 0);
    assert_eq!(state.pending_macro_merge_len(), 501);

    // Process one batch.
    let moved = state.process_paced_recovery_batch(MACRO_MERGE_BATCH_SIZE);
    assert_eq!(moved, MACRO_MERGE_BATCH_SIZE);
    assert_eq!(state.active_queue.len(), MACRO_MERGE_BATCH_SIZE);
    assert_eq!(
        state.pending_macro_merge_len(),
        501 - MACRO_MERGE_BATCH_SIZE
    );
}

#[test]
fn macro_merge_backlog_releases_in_timestamp_order() {
    let mut state = GossipState::new();
    let envelopes: Vec<TransactionEnvelope> = (0u16..600)
        .map(|i| {
            let mut env = make_envelope((i % 251) as u8);
            env.timestamp = (600 - i) as u64 / 2;
            env.message_id[1] = (i >> 8) as u8;
            env.message_id[2] = (i & 0xFF) as u8;
            env
        })
        .collect();
    state.handle_sync_response(SyncResponse { missing_envelopes: envelopes });
    assert_eq!(state.pending_macro_merge_len(), 600);
    let moved = state.process_paced_recovery_batch(600);
    assert_eq!(moved, 600);
    let released: Vec<u64> = state
        .active_queue
        .iter_envelopes()
        .iter()
        .map(|e| e.timestamp)
        .collect();
    assert_eq!(released.len(), 600);
    assert!(released.windows(2).all(|w| w[0] <= w[1]));
    // equal timestamps keep their order of arrival: i = 599 and i = 598 share 0 and 1
    let first = &state.active_queue.iter_envelopes()[0];
    assert_eq!(first.timestamp, 0);
    assert_eq!((first.message_id[1], first.message_id[2]), (2, 0x57)); // i = 599
}

#[test]
fn paced_recovery_with_zero_batch_moves_nothing() {
    let mut state = GossipState::new();
    assert_eq!(state.process_paced_recovery_batch(0), 0);
    assert_eq!(state.process_paced_recovery_batch(10), 0);
}

#[test]
fn test_bloom_new_message_returns_false() {
    let mut filter = SlidingBloomFilter::new(1000, ONE_PERCENT);
    assert!(!filter.check_and_add(&[1; 32]));
}

#[test]
fn test_bloom_seen_message_returns_true() {
    let mut filter = SlidingBloomFilter::new(1000, ONE_PERCENT);
    filter.check_and_add(&[1; 32]);
    assert!(filter.check_and_add(&[1; 32]));
}

#[test]
fn test_bloom_rotates_on_capacity() {
    let mut filter = SlidingBloomFilter::new(10, ONE_PERCENT);

    for i in 0u32..10 {
        let mut id = [0u8; 32];
        id[0..4].copy_from_slice(&i.to_le_bytes());
        filter.check_and_add(&id);
    }

    // Insert one more to trigger rotation
    let trigger = [10u8; 32];
    filter.check_and_add(&trigger);

    // After rotation, previously inserted items should still be found (in previous window)
    let mut first = [0u8; 32];
    first[0] = 0;
    assert!(filter.check_and_add(&first));
}

#[test]
fn test_bloom_false_positive_rate_acceptable() {
    let mut filter = SlidingBloomFilter::new(10_000, ONE_PERCENT);
    let capacity = 10_000;

    for i in 0u32..capacity as u32 {
        let mut id = [0u8; 32];
        id[0..4].copy_from_slice(&i.to_le_bytes());
        filter.check_and_add(&id);
    }

    let mut false_positives = 0;
    let test_sample_size = 1000;

    for i in 0u32..test_sample_size as u32 {
        let offset = (capacity as u32) + i;
        let mut id = [0u8; 32];
        id[0..4].copy_from_slice(&offset.to_le_bytes());
        if filter.check_and_add(&id) {
            false_positives += 1;
        }
    }

    let fp_rate = (false_positives as f64) / (test_sample_size as f64);
    assert!(
        fp_rate <= 0.05,
        "False positive rate too high: {:.2}%",
        fp_rate * 100.0
    );
}

#[test]
fn checked_id_stays_seen_for_a_full_window() {
    let capacity = 4usize;
    let mut filter = SlidingBloomFilter::new(capacity, ONE_PERCENT);
    // fill part of the first window
    for i in 100u8..102 {
        filter.check_and_add(&[i; 32]);
    }
    let x = [7u8; 32];
    assert!(!filter.check_and_add(&x));
    for i in 0..capacity as u8 {
        filter.check_and_add(&[200 + i; 32]);
        assert!(filter.contains(&x));
    }
}
