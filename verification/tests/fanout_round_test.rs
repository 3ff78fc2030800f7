use stellarconduit_core::discovery::peer_list::PeerList;
use stellarconduit_core::gossip::bloom::SlidingBloomFilter;
use stellarconduit_core::gossip::fanout::FanoutCalculator;
use stellarconduit_core::gossip::protocol::{
    lift_expired_bans_at, plan_fanout_round_at, process_signature_check_at, GossipLoopMetrics,
    GossipState, SignatureCheck, FANOUT_BATCH_SIZE, SIGNATURE_BAN_DURATION_SEC,
};
use stellarconduit_core::gossip::strike_tracker::StrikeTracker;
use stellarconduit_core::message::types::{
    ProtocolMessage, SyncRequest, TopologyUpdate, TransactionEnvelope,
};
use stellarconduit_core::peer::identity::PeerIdentity;
use stellarconduit_core::time::TimeSpan;

const ONE_PERCENT: u32 = 10_000;

fn mock_envelope(id_byte: u8) -> TransactionEnvelope {
    TransactionEnvelope {
        message_id: [id_byte; 32],
        origin_pubkey: [0u8; 32],
        tx_xdr: format!("XDR{}", id_byte),
        ttl_hops: 10,
        timestamp: 0,
        signature: [0u8; 64],
    }
}

fn key(b: u8) -> [u8; 32] {
    [b; 32]
}

#[test]
fn test_execute_fanout_round_drops_ttl_zero() {
    let fanout_calc = FanoutCalculator::new();
    let mut bloom = SlidingBloomFilter::new(10_000, ONE_PERCENT);
    let mut metrics = GossipLoopMetrics::default();

    let mut state = GossipState::new();
    let mut env_live = mock_envelope(0x01);
    env_live.ttl_hops = 3;
    let mut env_dead = mock_envelope(0x02);
    env_dead.ttl_hops = 0;
    state.add_envelope(env_live);
    state.add_envelope(env_dead);

    // No active peers → round fires but nothing is sent.
    let peer_list = PeerList::new(300);
    let plan = plan_fanout_round_at(
        &mut bloom,
        &mut metrics,
        &mut state,
        &peer_list,
        &fanout_calc,
        1_000,
    );

    assert_eq!(metrics.rounds_fired, 1);
    assert!(plan.recipients.is_empty());
    assert!(plan.envelopes.is_empty());
    assert_eq!(state.active_queue.len(), 2);
}

#[test]
fn round_forwards_live_envelopes_with_one_hop_less() {
    let fanout_calc = FanoutCalculator::new();
    let mut bloom = SlidingBloomFilter::new(10_000, ONE_PERCENT);
    let mut metrics = GossipLoopMetrics::default();
    let mut peer_list = PeerList::new(300);
    for b in 1..=4u8 {
        peer_list.insert_or_update_at(key(b), 50, 1_000);
    }
    peer_list.ban_peer_at(&key(2), 3_600, 1_000);

    let mut state = GossipState::new();
    let mut env_live = mock_envelope(0x01);
    env_live.ttl_hops = 3;
    let mut env_dead = mock_envelope(0x02);
    env_dead.ttl_hops = 0;
    state.add_envelope(env_live);
    state.add_envelope(env_dead);
    state.add_envelope(mock_envelope(0x01)); // same id again: suppressed

    let plan = plan_fanout_round_at(
        &mut bloom,
        &mut metrics,
        &mut state,
        &peer_list,
        &fanout_calc,
        1_010,
    );

    // three reachable peers, fanout for 3 connections with default bounds is 3
    assert_eq!(plan.recipients.len(), 3);
    assert!(plan.recipients.iter().all(|p| p.pubkey != key(2)));
    for i in 0..plan.recipients.len() {
        for j in (i + 1)..plan.recipients.len() {
            assert_ne!(plan.recipients[i].pubkey, plan.recipients[j].pubkey);
        }
    }
    assert_eq!(plan.envelopes.len(), 1);
    assert_eq!(plan.envelopes[0].message_id, key(1));
    assert_eq!(plan.envelopes[0].ttl_hops, 2);
    assert_eq!(metrics.rounds_fired, 1);
    assert_eq!(metrics.envelopes_forwarded, 1);
    assert_eq!(state.active_queue.len(), 0);
    assert!(bloom.contains(&key(2)));
}

#[test]
fn round_stops_at_control_message_and_requeues_it() {
    let fanout_calc = FanoutCalculator::new();
    let mut bloom = SlidingBloomFilter::new(10_000, ONE_PERCENT);
    let mut metrics = GossipLoopMetrics::default();
    let mut peer_list = PeerList::new(300);
    peer_list.insert_or_update_at(key(9), 50, 1_000);

    let mut state = GossipState::new();
    state.add_envelope(mock_envelope(0x05));
    state.active_queue.push(ProtocolMessage::SyncRequest(SyncRequest {
        known_message_ids: vec![],
    }));

    let plan = plan_fanout_round_at(
        &mut bloom,
        &mut metrics,
        &mut state,
        &peer_list,
        &fanout_calc,
        1_000,
    );
    assert_eq!(plan.recipients.len(), 1);
    assert!(plan.envelopes.is_empty());
    assert_eq!(state.active_queue.len(), 2);
    assert!(matches!(
        state.active_queue.pop(),
        Some(ProtocolMessage::SyncRequest(_))
    ));
}

#[test]
fn round_drains_at_most_a_batch() {
    let fanout_calc = FanoutCalculator::new();
    let mut bloom = SlidingBloomFilter::new(10_000, ONE_PERCENT);
    let mut metrics = GossipLoopMetrics::default();
    let mut peer_list = PeerList::new(300);
    peer_list.insert_or_update_at(key(9), 50, 1_000);
    let mut state = GossipState::new();
    for i in 0..40u8 {
        state.add_envelope(mock_envelope(i));
    }
    let plan = plan_fanout_round_at(
        &mut bloom,
        &mut metrics,
        &mut state,
        &peer_list,
        &fanout_calc,
        1_000,
    );
    assert_eq!(plan.envelopes.len(), FANOUT_BATCH_SIZE);
    assert_eq!(state.active_queue.len(), 40 - FANOUT_BATCH_SIZE);
    assert_eq!(metrics.envelopes_forwarded, FANOUT_BATCH_SIZE as u64);
}

#[test]
fn valid_signature_clears_strikes() {
    let mut strikes = StrikeTracker::new();
    let mut list = PeerList::new(300);
    let mut env = mock_envelope(1);
    env.origin_pubkey = key(7);
    let t = TimeSpan::from_secs(10);
    for _ in 0..2 {
        let r = process_signature_check_at(&env, SignatureCheck::Unverifiable, &mut strikes, &mut list, t, 100);
        assert!(r.is_ok());
    }
    assert_eq!(strikes.get_strike_count_at(&PeerIdentity::new(key(7)), t), 2);
    assert!(process_signature_check_at(&env, SignatureCheck::Invalid, &mut strikes, &mut list, t, 100).is_ok());
    assert_eq!(strikes.get_strike_count_at(&PeerIdentity::new(key(7)), t), 2);
    assert!(process_signature_check_at(&env, SignatureCheck::Valid, &mut strikes, &mut list, t, 100).is_ok());
    assert_eq!(strikes.get_strike_count_at(&PeerIdentity::new(key(7)), t), 0);
    assert!(list.is_empty());
}

#[test]
fn fourth_unverifiable_signature_bans_for_a_day() {
    let mut strikes = StrikeTracker::new();
    let mut list = PeerList::new(300);
    let mut env = mock_envelope(1);
    env.origin_pubkey = key(7);
    let t = TimeSpan::from_secs(10);
    for _ in 0..3 {
        assert!(process_signature_check_at(&env, SignatureCheck::Unverifiable, &mut strikes, &mut list, t, 100).is_ok());
    }
    let r = process_signature_check_at(&env, SignatureCheck::Unverifiable, &mut strikes, &mut list, t, 100);
    assert_eq!(r, Err(PeerIdentity::new(key(7))));
    let peer = list.get_peer(&key(7)).unwrap();
    assert!(peer.is_banned);
    assert_eq!(peer.ban_expires_at_unix_sec, 100 + SIGNATURE_BAN_DURATION_SEC);
    assert_eq!(peer.last_seen_unix_sec, 100);

    // the ban check lifts it a day later and forgets the strikes
    assert!(lift_expired_bans_at(&mut list, &mut strikes, 100 + SIGNATURE_BAN_DURATION_SEC - 1).is_empty());
    let lifted = lift_expired_bans_at(&mut list, &mut strikes, 100 + SIGNATURE_BAN_DURATION_SEC);
    assert_eq!(lifted, vec![PeerIdentity::new(key(7))]);
    assert!(!list.is_peer_banned(&key(7)));
    assert_eq!(strikes.get_strike_count_at(&PeerIdentity::new(key(7)), t), 0);
}

#[test]
fn topology_updates_are_high_priority() {
    let mut state = GossipState::new();
    state.add_envelope(mock_envelope(3));
    state.active_queue.push(ProtocolMessage::TopologyUpdate(TopologyUpdate {
        origin_pubkey: key(1),
        directly_connected_peers: vec![],
        hops_to_relay: 1,
    }));
    assert!(matches!(
        state.active_queue.pop(),
        Some(ProtocolMessage::TopologyUpdate(_))
    ));
}

#[test]
fn shutdown_flush_takes_every_transaction_in_pop_order() {
    let mut state = GossipState::new();
    state.add_envelope(mock_envelope(1));
    state.active_queue.push(ProtocolMessage::SyncRequest(SyncRequest {
        known_message_ids: vec![[1, 1, 1, 1]],
    }));
    state.add_envelope(mock_envelope(2));
    let envs = state.drain_pending_transactions();
    let ids: Vec<u8> = envs.iter().map(|e| e.message_id[0]).collect();
    assert_eq!(ids, vec![1, 2]);
    assert!(state.active_queue.is_empty());
}
