//! Events peer discovery reports to upper layers.
use vstd::prelude::*;

use crate::peer::identity::PeerIdentity;

verus! {

#[derive(Debug, Clone, Copy, PartialEq, Eq)]
pub enum DiscoveryEvent {
    /// First contact with a peer.
    PeerDiscovered(PeerIdentity),
    /// A known peer was seen again, with the reported signal strength.
    PeerUpdated(PeerIdentity, u8),
    /// A peer was not seen within the expiry window and was dropped.
    PeerLost(PeerIdentity),
}

} // verus!
