use stellarconduit_core::message::types::TransactionEnvelope;
use stellarconduit_core::relay::dedup::RelayDeduplicator;
use stellarconduit_core::relay::{begin_relay, finish_relay, RelayStep, RpcError};

fn envelope(id: u8) -> TransactionEnvelope {
    TransactionEnvelope {
        message_id: [id; 32],
        origin_pubkey: [2u8; 32],
        tx_xdr: "AAAAAQAAAAAAAAAA".to_string(),
        ttl_hops: 10,
        timestamp: 1672531200,
        signature: [3u8; 64],
    }
}

#[test]
fn duplicate_envelope_is_answered_from_cache() {
    let mut dedup = RelayDeduplicator::new(1000);
    let env = envelope(1);
    assert_eq!(begin_relay(&mut dedup, &env), RelayStep::Submit);
    let hash = hex::encode([0xABu8; 32]);
    assert_eq!(finish_relay(&mut dedup, env.message_id, hash.clone()), Ok([0xABu8; 32]));
    assert_eq!(begin_relay(&mut dedup, &env), RelayStep::Cached(hash));
    assert_eq!(begin_relay(&mut dedup, &envelope(2)), RelayStep::Submit);
}

#[test]
fn malformed_transaction_hash_is_a_network_error() {
    let mut dedup = RelayDeduplicator::new(10);
    let env = envelope(5);
    match finish_relay(&mut dedup, env.message_id, "abcd".to_string()) {
        Err(RpcError::Network(msg)) => {
            assert_eq!(msg, "invalid transaction hash: expected 32 bytes, got 2")
        }
        other => panic!("unexpected {:?}", other),
    }
    assert_eq!(begin_relay(&mut dedup, &env), RelayStep::Submit);
}
