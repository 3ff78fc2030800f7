use stellarconduit_core::relay::dedup::RelayDeduplicator;

#[test]
fn test_check_returns_none_for_new_message_id() {
    let mut dedup = RelayDeduplicator::new(1000);
    let message_id = [1u8; 32];

    assert_eq!(dedup.check(&message_id), None);
}

#[test]
fn test_check_returns_hash_after_mark_submitted() {
    let mut dedup = RelayDeduplicator::new(1000);
    let message_id = [1u8; 32];
    let tx_hash = "abc123".to_string();

    assert_eq!(dedup.check(&message_id), None);
    dedup.mark_submitted(message_id, tx_hash.clone());
    assert_eq!(dedup.check(&message_id), Some(tx_hash));
}

#[test]
fn test_multiple_message_ids() {
    let mut dedup = RelayDeduplicator::new(1000);
    let msg1 = [1u8; 32];
    let msg2 = [2u8; 32];
    let hash1 = "hash1".to_string();
    let hash2 = "hash2".to_string();

    dedup.mark_submitted(msg1, hash1.clone());
    dedup.mark_submitted(msg2, hash2.clone());

    assert_eq!(dedup.check(&msg1), Some(hash1));
    assert_eq!(dedup.check(&msg2), Some(hash2));
}

#[test]
fn test_bloom_filter_rotation_under_load() {
    let mut dedup = RelayDeduplicator::new(20); // Capacity large enough to hold all items

    // Add items to fill the bloom filter window and trigger rotation
    for i in 0..25 {
        let mut msg_id = [0u8; 32];
        msg_id[0] = i as u8;
        let tx_hash = format!("hash_{}", i);
        dedup.mark_submitted(msg_id, tx_hash.clone());

        // Verify we can still retrieve it immediately
        assert_eq!(dedup.check(&msg_id), Some(tx_hash));
    }

    // Verify recent items are still accessible (they should be in the cache)
    let mut msg20 = [0u8; 32];
    msg20[0] = 20;
    assert_eq!(dedup.check(&msg20), Some("hash_20".to_string()));

    // This might be None if evicted from cache, or Some if still in cache
    let mut msg5 = [0u8; 32];
    msg5[0] = 5;
    let result = dedup.check(&msg5);
    if let Some(hash) = result {
        assert_eq!(hash, "hash_5".to_string());
    }
}

#[test]
fn least_recently_used_result_is_evicted() {
    let mut dedup = RelayDeduplicator::new(2);
    dedup.mark_submitted([1u8; 32], "one".to_string());
    dedup.mark_submitted([2u8; 32], "two".to_string());
    assert_eq!(dedup.check(&[1u8; 32]), Some("one".to_string()));
    dedup.mark_submitted([3u8; 32], "three".to_string());
    assert_eq!(dedup.check(&[2u8; 32]), None);
    assert_eq!(dedup.check(&[1u8; 32]), Some("one".to_string()));
    assert_eq!(dedup.check(&[3u8; 32]), Some("three".to_string()));
}

#[test]
fn zero_capacity_uses_default_cache_size() {
    let mut dedup = RelayDeduplicator::new(0);
    for i in 0..50u8 {
        dedup.mark_submitted([i; 32], format!("h{}", i));
    }
    assert_eq!(dedup.check(&[0u8; 32]), Some("h0".to_string()));
}
