use stellarconduit_core::gossip::strike_tracker::StrikeTracker;
use stellarconduit_core::peer::identity::PeerIdentity;
use stellarconduit_core::time::TimeSpan;

#[test]
fn test_strike_tracking() {
    let mut tracker = StrikeTracker::new();
    let peer = PeerIdentity::new([0xAA; 32]);

    // Record 3 failures - should not ban yet
    assert!(!tracker.record_failure(&peer));
    assert!(!tracker.record_failure(&peer));
    assert!(!tracker.record_failure(&peer));
    assert_eq!(tracker.get_strike_count(&peer), 3);

    // 4th failure should trigger ban
    assert!(tracker.record_failure(&peer));
    assert_eq!(tracker.get_strike_count(&peer), 4);
}

#[test]
fn test_multiple_peers() {
    let mut tracker = StrikeTracker::new();
    let peer1 = PeerIdentity::new([0x01; 32]);
    let peer2 = PeerIdentity::new([0x02; 32]);

    tracker.record_failure(&peer1);
    tracker.record_failure(&peer1);
    tracker.record_failure(&peer2);

    assert_eq!(tracker.get_strike_count(&peer1), 2);
    assert_eq!(tracker.get_strike_count(&peer2), 1);
}

#[test]
fn failures_outside_window_stop_counting() {
    let mut tracker = StrikeTracker::new();
    let peer = PeerIdentity::new([0x05; 32]);
    let t0 = TimeSpan::from_secs(0);
    assert!(!tracker.record_failure_at(&peer, t0));
    assert!(!tracker.record_failure_at(&peer, TimeSpan::from_secs(60)));
    // ten minutes after the first failure, it still counts
    assert_eq!(tracker.get_strike_count_at(&peer, TimeSpan::from_secs(600)), 2);
    // a moment later it no longer does
    assert_eq!(tracker.get_strike_count_at(&peer, TimeSpan::from_secs(601)), 1);
    // a failure at 11 minutes sees only the one at 1 minute
    assert!(!tracker.record_failure_at(&peer, TimeSpan::from_secs(660)));
    assert_eq!(tracker.get_strike_count_at(&peer, TimeSpan::from_secs(660)), 2);
}

#[test]
fn cleanup_drops_peers_without_recent_failures() {
    let mut tracker = StrikeTracker::default();
    let peer = PeerIdentity::new([0x06; 32]);
    tracker.record_failure_at(&peer, TimeSpan::from_secs(0));
    tracker.cleanup_at(TimeSpan::from_secs(1_000));
    assert_eq!(tracker.get_strike_count_at(&peer, TimeSpan::from_secs(0)), 0);
}

#[test]
fn clear_peer_resets_strikes() {
    let mut tracker = StrikeTracker::new();
    let peer = PeerIdentity::new([0x07; 32]);
    tracker.record_failure(&peer);
    tracker.clear_peer(&peer);
    assert_eq!(tracker.get_strike_count(&peer), 0);
}

#[test]
fn cleanup_keeps_counts_at_the_same_instant() {
    let mut tracker = StrikeTracker::new();
    let a = PeerIdentity::new([1; 32]);
    let b = PeerIdentity::new([2; 32]);
    tracker.record_failure_at(&a, TimeSpan::from_secs(0));
    tracker.record_failure_at(&a, TimeSpan::from_secs(500));
    tracker.record_failure_at(&b, TimeSpan::from_secs(10));
    let now = TimeSpan::from_secs(700);
    let before_a = tracker.get_strike_count_at(&a, now);
    let before_b = tracker.get_strike_count_at(&b, now);
    assert_eq!((before_a, before_b), (1, 0));
    tracker.cleanup_at(now);
    assert_eq!(tracker.get_strike_count_at(&a, now), before_a);
    assert_eq!(tracker.get_strike_count_at(&b, now), before_b);
}
