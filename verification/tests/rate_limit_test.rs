use stellarconduit_core::peer::identity::PeerIdentity;
use stellarconduit_core::security::rate_limit::{RateLimitConfig, RateLimiter};
use stellarconduit_core::transport::connection::TransportType;

fn create_test_peer(byte: u8) -> PeerIdentity {
    PeerIdentity::new([byte; 32])
}

#[test]
fn test_rate_limiter_allows_messages_within_limit() {
    let mut limiter = RateLimiter::new();
    let peer = create_test_peer(1);

    // Should allow messages up to the limit
    for _ in 0..10 {
        assert!(limiter.check_rate_limit(&peer, TransportType::Ble).is_ok());
    }
}

#[test]
fn test_rate_limiter_blocks_messages_exceeding_limit() {
    let mut limiter = RateLimiter::new();
    let peer = create_test_peer(2);

    // Consume the entire quota immediately
    for _ in 0..10 {
        let _ = limiter.check_rate_limit(&peer, TransportType::Ble);
    }

    // Next message should be rate limited
    let result = limiter.check_rate_limit(&peer, TransportType::Ble);
    assert!(result.is_err());
    assert!(!result.unwrap_err()); // Not banned yet
}

#[test]
fn test_rate_limiter_tracks_violations() {
    let config = RateLimitConfig {
        ble_messages_per_second: 5,
        wifi_messages_per_second: 50,
        violation_threshold: 3,
    };
    let mut limiter = RateLimiter::with_config(config);
    let peer = create_test_peer(3);

    // Exceed rate limit multiple times
    for _ in 0..5 {
        let _ = limiter.check_rate_limit(&peer, TransportType::Ble);
    }

    // Trigger violations
    for i in 0..3 {
        let result = limiter.check_rate_limit(&peer, TransportType::Ble);
        if i < 2 {
            assert!(!result.unwrap_err()); // Not banned yet
        } else {
            assert!(result.unwrap_err()); // Should ban
        }
    }

    assert_eq!(limiter.get_violation_count(&peer), 3);
}

#[test]
fn rate_limit_test_rate_limiter_resets_violations_on_good_behavior() {
    let config = RateLimitConfig {
        ble_messages_per_second: 10,
        wifi_messages_per_second: 100,
        violation_threshold: 5,
    };
    let mut limiter = RateLimiter::with_config(config);
    let peer = create_test_peer(4);

    // Trigger some violations
    for _ in 0..10 {
        let _ = limiter.check_rate_limit(&peer, TransportType::Ble);
    }
    let _ = limiter.check_rate_limit(&peer, TransportType::Ble); // Violation 1
    assert_eq!(limiter.get_violation_count(&peer), 1);
}

#[test]
fn rate_limit_test_rate_limiter_different_limits_per_transport() {
    let mut limiter = RateLimiter::new();
    let peer = create_test_peer(5);

    // BLE should have lower limit (10 msg/s)
    for _ in 0..10 {
        assert!(limiter.check_rate_limit(&peer, TransportType::Ble).is_ok());
    }

    // WiFi-Direct should have higher limit (100 msg/s)
    for _ in 0..100 {
        assert!(limiter
            .check_rate_limit(&peer, TransportType::WifiDirect)
            .is_ok());
    }
}

#[test]
fn test_rate_limiter_remove_peer() {
    let mut limiter = RateLimiter::new();
    let peer = create_test_peer(6);

    // Add some state
    let _ = limiter.check_rate_limit(&peer, TransportType::Ble);
    assert!(limiter.tracks_peer(&peer));

    // Remove peer
    limiter.remove_peer(&peer);
    assert!(!limiter.tracks_peer(&peer));
}

#[test]
fn test_rate_limiter_separate_limits_per_peer() {
    let mut limiter = RateLimiter::new();
    let peer1 = create_test_peer(7);
    let peer2 = create_test_peer(8);

    // Both peers should have independent rate limits
    for _ in 0..10 {
        assert!(limiter.check_rate_limit(&peer1, TransportType::Ble).is_ok());
        assert!(limiter.check_rate_limit(&peer2, TransportType::Ble).is_ok());
    }
}

#[test]
fn recorded_outcomes_drive_violation_count() {
    let config = RateLimitConfig {
        ble_messages_per_second: 10,
        wifi_messages_per_second: 100,
        violation_threshold: 2,
    };
    let mut limiter = RateLimiter::with_config(config);
    let peer = create_test_peer(9);
    assert_eq!(limiter.record_check_outcome(&peer, false), Err(false));
    assert_eq!(limiter.record_check_outcome(&peer, false), Err(true));
    assert_eq!(limiter.get_violation_count(&peer), 2);
    assert_eq!(limiter.record_check_outcome(&peer, true), Ok(()));
    assert_eq!(limiter.get_violation_count(&peer), 0);
    limiter.clear();
    assert!(!limiter.tracks_peer(&peer));
}

#[test]
fn test_rate_limiter_separate_state_per_peer() {
    let mut limiter = RateLimiter::new();
    let peer1 = create_test_peer(6);
    let peer2 = create_test_peer(7);

    for _ in 0..10 {
        assert!(limiter.check_rate_limit(&peer1, TransportType::Ble).is_ok());
    }
    assert!(limiter.check_rate_limit(&peer1, TransportType::Ble).is_err());

    for _ in 0..10 {
        assert!(limiter.check_rate_limit(&peer2, TransportType::Ble).is_ok());
    }
    assert!(limiter.check_rate_limit(&peer2, TransportType::Ble).is_err());
}

#[test]
fn test_rate_limiter_tracks_violations_and_bans() {
    let config = RateLimitConfig {
        ble_messages_per_second: 5,
        wifi_messages_per_second: 50,
        violation_threshold: 3,
    };
    let mut limiter = RateLimiter::with_config(config);
    let peer = create_test_peer(2);

    for _ in 0..5 {
        let _ = limiter.check_rate_limit(&peer, TransportType::Ble);
    }

    for i in 0..3 {
        let result = limiter.check_rate_limit(&peer, TransportType::Ble);
        if i < 2 {
            assert!(!result.unwrap_err());
            assert_eq!(limiter.get_violation_count(&peer), i + 1);
        } else {
            assert!(result.unwrap_err());
            assert_eq!(limiter.get_violation_count(&peer), 3);
        }
    }
}

#[test]
fn test_security_event_emission_on_violation() {
    let config = RateLimitConfig {
        ble_messages_per_second: 5,
        wifi_messages_per_second: 50,
        violation_threshold: 2,
    };
    let mut limiter = RateLimiter::with_config(config);
    let peer = create_test_peer(5);

    for _ in 0..5 {
        let _ = limiter.check_rate_limit(&peer, TransportType::Ble);
    }

    for i in 0..2 {
        let result = limiter.check_rate_limit(&peer, TransportType::Ble);
        if i == 1 {
            assert!(result.unwrap_err());
        }
    }

    assert_eq!(limiter.get_violation_count(&peer), 2);
}

#[test]
fn test_rate_limiter_removes_peer_state() {
    let mut limiter = RateLimiter::new();
    let peer = create_test_peer(8);

    let _ = limiter.check_rate_limit(&peer, TransportType::Ble);
    assert_eq!(limiter.get_violation_count(&peer), 0);

    limiter.remove_peer(&peer);
    assert_eq!(limiter.get_violation_count(&peer), 0);
}

#[test]
fn fresh_peer_gets_its_configured_burst_on_each_transport() {
    let config = RateLimitConfig {
        ble_messages_per_second: 3,
        wifi_messages_per_second: 7,
        violation_threshold: 4,
    };
    let mut limiter = RateLimiter::with_config(config);
    let peer = create_test_peer(11);
    for _ in 0..3 {
        assert_eq!(limiter.check_rate_limit(&peer, TransportType::Ble), Ok(()));
    }
    for _ in 0..7 {
        assert_eq!(limiter.check_rate_limit(&peer, TransportType::WifiDirect), Ok(()));
    }
    assert_eq!(limiter.get_violation_count(&peer), 0);
}
