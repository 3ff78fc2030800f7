use stellarconduit_core::discovery::events::DiscoveryEvent;
use stellarconduit_core::discovery::peer_list::PeerList;
use stellarconduit_core::peer::identity::PeerIdentity;
use stellarconduit_core::peer::peer_node::Peer;

#[test]
fn first_contact_is_discovery_then_update() {
    let mut list = PeerList::new(300);
    let key = [7u8; 32];
    assert_eq!(
        list.insert_or_update_at(key, 10, 1_000),
        Some(DiscoveryEvent::PeerDiscovered(PeerIdentity::new(key)))
    );
    assert_eq!(
        list.insert_or_update_at(key, 20, 1_100),
        Some(DiscoveryEvent::PeerUpdated(PeerIdentity::new(key), 20))
    );
    assert_eq!(list.len(), 1);
    assert_eq!(list.get_peer(&key).unwrap().last_seen_unix_sec, 1_100);
}

#[test]
fn prune_removes_only_stale_peers() {
    let mut list = PeerList::new(300);
    list.insert_or_update_at([1u8; 32], 0, 1_000);
    list.insert_or_update_at([2u8; 32], 0, 1_000);
    list.set_last_seen(&[2u8; 32], 500);
    assert_eq!(list.get_active_peers_at(1_000).len(), 1);
    let lost = list.prune_stale_peers_at(1_000);
    assert_eq!(lost, vec![DiscoveryEvent::PeerLost(PeerIdentity::new([2u8; 32]))]);
    assert_eq!(list.len(), 1);
    assert!(!list.is_empty());
    // exactly at the expiry boundary a peer is still active
    assert_eq!(list.get_active_peers_at(1_300).len(), 1);
    assert_eq!(list.get_active_peers_at(1_301).len(), 0);
}

#[test]
fn bans_expire_and_can_be_lifted() {
    let mut list = PeerList::new(300);
    let key = [3u8; 32];
    assert!(!list.ban_peer_at(&key, 60, 1_000));
    list.insert_or_update_at(key, 0, 1_000);
    assert!(list.ban_peer_at(&key, 60, 1_000));
    assert!(list.is_peer_banned(&key));
    assert!(list.check_ban_expirations_at(1_059).is_empty());
    assert_eq!(list.check_ban_expirations_at(1_060), vec![PeerIdentity::new(key)]);
    assert!(!list.is_peer_banned(&key));
    assert!(list.ban_peer(&key, 3600));
    assert!(list.unban_peer(&key));
    assert!(!list.is_peer_banned(&key));
}

#[test]
fn peer_can_be_edited_in_place() {
    let mut list = PeerList::new(300);
    let key = [4u8; 32];
    list.insert_or_update(key, 0);
    list.get_peer_mut(&key).unwrap().is_relay_node = true;
    assert!(list.get_peer(&key).unwrap().is_relay_node);
    assert!(list.get_peer_mut(&[5u8; 32]).is_none());
}

#[test]
fn peer_ban_lifecycle() {
    let mut peer = Peer::new([6u8; 32]);
    assert_eq!(peer.reputation, 100);
    peer.ban_at(10, 100);
    assert!(peer.is_banned);
    assert_eq!(peer.ban_expires_at_unix_sec, 110);
    assert!(!peer.check_ban_expiration_at(109));
    assert!(peer.check_ban_expiration_at(110));
    assert!(!peer.is_banned);
    assert_eq!(peer.ban_expires_at_unix_sec, 0);
}

#[test]
fn display_id_is_lowercase_hex() {
    let id = PeerIdentity::new([0xAB; 32]);
    assert_eq!(id.display_id(), "ab".repeat(32));
}
