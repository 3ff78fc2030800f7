//! Everything the node knows about one peer.
use vstd::prelude::*;

use crate::peer::identity::PeerIdentity;
use crate::time::now_unix_sec;

verus! {

#[derive(Debug, Clone, Copy)]
pub struct Peer {
    pub identity: PeerIdentity,
    /// Reputation score: 0–100. Drops to 0 triggers a ban.
    pub reputation: u32,
    pub is_banned: bool,
    /// Unix timestamp when the ban expires (0 if not banned)
    pub ban_expires_at_unix_sec: u64,
    /// Unix timestamp of the last observed activity from this peer
    pub last_seen_unix_sec: u64,
    /// Bitmask: 0x01 = BLE, 0x02 = WiFi-Direct
    pub supported_transports: u8,
    pub is_relay_node: bool,
    pub bytes_sent: u64,
    pub bytes_received: u64,
}

/// A freshly discovered peer: full reputation, not banned, never seen.
pub open spec fn fresh_peer(pubkey: [u8; 32]) -> Peer {
    Peer {
        identity: PeerIdentity { pubkey },
        reputation: 100,
        is_banned: false,
        ban_expires_at_unix_sec: 0,
        last_seen_unix_sec: 0,
        supported_transports: 0,
        is_relay_node: false,
        bytes_sent: 0,
        bytes_received: 0,
    }
}

/// `p` banned until `until`, all else as in `old`.
pub open spec fn banned_until(old: Peer, until: int) -> Peer {
    Peer { is_banned: true, ban_expires_at_unix_sec: until as u64, ..old }
}

/// `p` with its ban lifted, all else as in `old`.
pub open spec fn unbanned(old: Peer) -> Peer {
    Peer { is_banned: false, ban_expires_at_unix_sec: 0, ..old }
}

/// `new` is `old` after a ban of `duration_sec` seconds taken at clock reading
/// `now`; a ban whose expiry would not fit in 64 bits leaves the peer as it was.
pub open spec fn ban_taken(old: Peer, new: Peer, duration_sec: u64, now: u64) -> bool {
    if now + duration_sec <= u64::MAX {
        new == banned_until(old, now + duration_sec)
    } else {
        new == old
    }
}

/// A banned peer whose ban has run out at `now`.
pub open spec fn ban_expired(p: Peer, now: u64) -> bool {
    p.is_banned && now >= p.ban_expires_at_unix_sec
}

/// A ban taken until `until` runs out exactly from `until` on.
pub proof fn lemma_ban_runs_out(p: Peer, until: u64, t: u64)
    ensures
        ban_expired(banned_until(p, until as int), t) <==> t >= until,
        !ban_expired(unbanned(p), t),
{
}

impl Peer {
    pub fn new(pubkey: [u8; 32]) -> (p: Self)
        ensures
            p == fresh_peer(pubkey),
    {
        Self {
            identity: PeerIdentity::new(pubkey),
            reputation: 100,
            is_banned: false,
            ban_expires_at_unix_sec: 0,
            last_seen_unix_sec: 0,
            supported_transports: 0,
            is_relay_node: false,
            bytes_sent: 0,
            bytes_received: 0,
        }
    }

    /// Bans this peer from `now` for `duration_sec` seconds.
    pub fn ban_at(&mut self, duration_sec: u64, now: u64)
        requires
            now + duration_sec <= u64::MAX,
        ensures
            *final(self) == banned_until(*old(self), now + duration_sec),
    {
        self.is_banned = true;
        self.ban_expires_at_unix_sec = now + duration_sec;
    }

    /// Ban this peer for the specified duration (in seconds), counted from the
    /// system clock. Should the expiry time not fit in 64 bits the peer is left
    /// unchanged.
    pub fn ban(&mut self, duration_sec: u64)
        ensures
            exists|now: u64| #[trigger] ban_taken(*old(self), *final(self), duration_sec, now),
    {
        let now = now_unix_sec();
        if now <= u64::MAX - duration_sec {
            self.ban_at(duration_sec, now);
        }
        assert(ban_taken(*old(self), *self, duration_sec, now));
    }

    /// Lifts the ban if it has run out at `now`; returns whether it did.
    pub fn check_ban_expiration_at(&mut self, now: u64) -> (lifted: bool)
        ensures
            lifted == ban_expired(*old(self), now),
            *final(self) == (if lifted {
                unbanned(*old(self))
            } else {
                *old(self)
            }),
    {
        if !self.is_banned {
            return false;
        }
        if now >= self.ban_expires_at_unix_sec {
            self.is_banned = false;
            self.ban_expires_at_unix_sec = 0;
            return true;
        }
        false
    }

    /// Check if ban has expired (by the system clock) and unban if so.
    pub fn check_ban_expiration(&mut self) -> (lifted: bool)
        ensures
            exists|now: u64|
                {
                    &&& lifted == #[trigger] ban_expired(*old(self), now)
                    &&& *final(self) == (if lifted {
                        unbanned(*old(self))
                    } else {
                        *old(self)
                    })
                },
    {
        let now = now_unix_sec();
        self.check_ban_expiration_at(now)
    }
}

} // verus!
