//! Security-related events.
use vstd::prelude::*;

use crate::peer::identity::PeerIdentity;

verus! {

/// Security-related events emitted when peers violate rate limits or other security policies.
#[derive(Clone, Debug)]
pub enum SecurityEvent {
    /// A peer has exceeded rate limits consistently and should be banned.
    /// Contains the peer identity and the reason for the violation.
    PeerViolation { peer: PeerIdentity, reason: ViolationReason },
}

#[derive(Clone, Copy, Debug, PartialEq, Eq)]
pub enum ViolationReason {
    /// Peer exceeded the rate limit threshold for their transport type
    RateLimitExceeded,
}

} // verus!
