//! Message and envelope schemas exchanged between mesh peers.
use vstd::prelude::*;

verus! {

/// A signed Stellar transaction travelling through the mesh.
#[derive(Debug)]
pub struct TransactionEnvelope {
    /// SHA-256 of the signed payload; identifies the envelope.
    pub message_id: [u8; 32],
    /// Ed25519 public key of the originating device.
    pub origin_pubkey: [u8; 32],
    /// Base64-encoded Stellar transaction XDR.
    pub tx_xdr: String,
    /// Remaining hops before the envelope is dropped.
    pub ttl_hops: u8,
    /// Creation time, seconds since the UNIX epoch.
    pub timestamp: u64,
    /// Ed25519 signature over the payload hash.
    pub signature: [u8; 64],
}

impl Clone for TransactionEnvelope {
    fn clone(&self) -> (res: Self)
        ensures
            res == *self,
    {
        TransactionEnvelope {
            message_id: self.message_id,
            origin_pubkey: self.origin_pubkey,
            tx_xdr: self.tx_xdr.clone(),
            ttl_hops: self.ttl_hops,
            timestamp: self.timestamp,
            signature: self.signature,
        }
    }
}

/// Anti-entropy pull request: the 4-byte id prefixes the sender already holds.
#[derive(Debug)]
pub struct SyncRequest {
    pub known_message_ids: Vec<[u8; 4]>,
}

/// Anti-entropy pull response: the envelopes the requester was missing.
#[derive(Debug)]
pub struct SyncResponse {
    pub missing_envelopes: Vec<TransactionEnvelope>,
}

/// A peer's announcement of its position in the mesh.
#[derive(Debug)]
pub struct TopologyUpdate {
    pub origin_pubkey: [u8; 32],
    pub directly_connected_peers: Vec<[u8; 32]>,
    pub hops_to_relay: u8,
}

/// Flags a node attaches to its topology announcements.
#[derive(Debug, Clone, Copy, PartialEq, Eq)]
pub enum TopologyFlag {
    /// The node enters synchronized low-power mode.
    GoToSleep,
}

/// Every message exchanged between peers.
#[derive(Debug)]
pub enum ProtocolMessage {
    Transaction(TransactionEnvelope),
    TopologyUpdate(TopologyUpdate),
    SyncRequest(SyncRequest),
    SyncResponse(SyncResponse),
}

/// The envelope carried by a message, if it is a transaction.
pub open spec fn envelope_of(msg: ProtocolMessage) -> Option<TransactionEnvelope> {
    match msg {
        ProtocolMessage::Transaction(env) => Some(env),
        _ => None,
    }
}

/// The envelopes of a message sequence, in order, skipping other messages.
pub open spec fn envelopes_of(msgs: Seq<ProtocolMessage>) -> Seq<TransactionEnvelope> {
    msgs.filter_map(|m: ProtocolMessage| envelope_of(m))
}

/// The envelopes of two message sequences in a row are those of the first,
/// then those of the second.
pub proof fn lemma_envelopes_of_append(a: Seq<ProtocolMessage>, b: Seq<ProtocolMessage>)
    ensures
        envelopes_of(a + b) == envelopes_of(a) + envelopes_of(b),
    decreases b.len(),
{
    if b.len() == 0 {
        assert(a + b =~= a);
        assert(envelopes_of(a) + envelopes_of(b) =~= envelopes_of(a));
    } else {
        lemma_envelopes_of_append(a, b.drop_last());
        assert((a + b).drop_last() =~= a + b.drop_last());
        assert((a + b).last() == b.last());
        match envelope_of(b.last()) {
            Some(e) => {
                assert(envelopes_of(a) + envelopes_of(b.drop_last()) + seq![e] =~= envelopes_of(a)
                    + (envelopes_of(b.drop_last()) + seq![e]));
            },
            None => {},
        }
    }
}

/// The 4-byte prefix of a message id that anti-entropy sync exchanges.
pub open spec fn id_prefix(id: [u8; 32]) -> Seq<u8> {
    id@.subrange(0, 4)
}

/// Returns the first four bytes of `id`.
pub fn message_id_prefix(id: &[u8; 32]) -> (prefix: [u8; 4])
    ensures
        prefix@ == id_prefix(*id),
{
    let prefix = [id[0], id[1], id[2], id[3]];
    assert(prefix@ =~= id_prefix(*id));
    prefix
}

} // verus!
