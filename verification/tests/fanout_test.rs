use std::collections::HashSet;

use stellarconduit_core::gossip::fanout::{
    ceil_ln_usize, select_random_peers, FanoutCalculator, FALLBACK_FANOUT,
};
use stellarconduit_core::peer::identity::PeerIdentity;

fn identity(b: u8) -> PeerIdentity {
    PeerIdentity::new([b; 32])
}

#[test]
fn returns_all_when_active_is_below_min() {
    let calc = FanoutCalculator::new();
    assert_eq!(calc.calculate(0, None), 0);
    assert_eq!(calc.calculate(1, None), 1);
    assert_eq!(calc.calculate(2, None), 2);
}

#[test]
fn uses_fallback_when_mesh_unknown_and_active_is_large() {
    let calc = FanoutCalculator::new();
    assert_eq!(calc.calculate(7, None), FALLBACK_FANOUT);
    assert_eq!(calc.calculate(100, None), FALLBACK_FANOUT);
}

#[test]
fn mesh_known_uses_logarithmic_scaling_with_bounds() {
    let calc = FanoutCalculator::new();

    assert_eq!(calc.calculate(3, Some(2)), 2); // ceil(ln(2)) => 1, clamped to min=2
    assert_eq!(calc.calculate(6, Some(8)), 3); // ceil(ln(8)) => 3
    assert_eq!(calc.calculate(6, Some(100)), 5); // ceil(ln(100)) => 5
    assert_eq!(calc.calculate(6, Some(1_000_000)), 6); // capped by max
}

#[test]
fn mesh_known_respects_active_connection_cap() {
    let calc = FanoutCalculator::new();
    assert_eq!(calc.calculate(4, Some(1_000_000)), 4);
}

#[test]
fn unknown_mesh_mid_range_returns_active_connections() {
    let calc = FanoutCalculator::new();
    assert_eq!(calc.calculate(3, None), 3);
    assert_eq!(calc.calculate(6, None), 6);
}

#[test]
fn random_selection_returns_empty_for_zero_or_empty_input() {
    let peers = vec![identity(1), identity(2)];
    assert!(select_random_peers(&peers, 0).is_empty());
    assert!(select_random_peers(&[], 3).is_empty());
}

#[test]
fn random_selection_is_unique_and_bounded() {
    let peers: Vec<PeerIdentity> = (0..10).map(identity).collect();

    let selected = select_random_peers(&peers, 6);
    assert_eq!(selected.len(), 6);

    let set: HashSet<PeerIdentity> = selected.iter().cloned().collect();
    assert_eq!(set.len(), selected.len());

    for peer in selected {
        assert!(peers.contains(&peer));
    }
}

#[test]
fn random_selection_with_f_above_peer_count_returns_all_unique_peers() {
    let peers: Vec<PeerIdentity> = (0..5).map(identity).collect();
    let selected = select_random_peers(&peers, 99);

    assert_eq!(selected.len(), peers.len());
    let set: HashSet<PeerIdentity> = selected.iter().cloned().collect();
    assert_eq!(set.len(), peers.len());
}

#[test]
fn test_fanout_below_min_returns_all_connections() {
    let calc = FanoutCalculator::new();
    assert_eq!(calc.calculate(1, None), 1);
    assert_eq!(calc.calculate(2, None), 2);
}

#[test]
fn test_fanout_above_max_capped() {
    let calc = FanoutCalculator::new();
    let target = calc.calculate(100, None);
    assert!(
        target <= 6,
        "Fanout should be capped at MAX_FANOUT. Got: {}",
        target
    );
}

#[test]
fn test_select_random_peers_unique() {
    let peers: Vec<PeerIdentity> = (0u8..5).map(|i| PeerIdentity::new([i; 32])).collect();

    let selected = select_random_peers(&peers, 3);
    assert_eq!(selected.len(), 3);

    let unique_peers: HashSet<PeerIdentity> = selected.into_iter().collect();
    assert_eq!(
        unique_peers.len(),
        3,
        "Selected peers must be strictly unique"
    );
}

#[test]
fn ceil_ln_matches_powers_of_e() {
    assert_eq!(ceil_ln_usize(1), 0);
    assert_eq!(ceil_ln_usize(2), 1);
    assert_eq!(ceil_ln_usize(3), 2);
    assert_eq!(ceil_ln_usize(7), 2);
    assert_eq!(ceil_ln_usize(8), 3);
    assert_eq!(ceil_ln_usize(20), 3);
    assert_eq!(ceil_ln_usize(21), 4);
    assert_eq!(ceil_ln_usize(usize::MAX), 45);
}

#[test]
fn mesh_size_zero_counts_as_one() {
    let calc = FanoutCalculator::new();
    // ceil(ln(1)) = 0, clamped up to the minimum of 2
    assert_eq!(calc.calculate(5, Some(0)), 2);
}
