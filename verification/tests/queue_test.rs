use stellarconduit_core::gossip::queue::{MessagePriority, PriorityQueue};
use stellarconduit_core::message::types::{ProtocolMessage, SyncRequest, TransactionEnvelope};

fn make_tx() -> ProtocolMessage {
    ProtocolMessage::Transaction(TransactionEnvelope {
        message_id: [0; 32],
        origin_pubkey: [0; 32],
        tx_xdr: String::new(),
        ttl_hops: 1,
        timestamp: 0,
        signature: [0; 64],
    })
}

fn make_sync() -> ProtocolMessage {
    ProtocolMessage::SyncRequest(SyncRequest {
        known_message_ids: vec![],
    })
}

#[test]
fn test_high_priority_pops_first_after_normals() {
    let mut queue = PriorityQueue::new();

    // Push 10 normal priority transactions
    for _ in 0..10 {
        queue.push(make_tx());
    }

    // Push 1 high priority sync request
    queue.push(make_sync());

    assert_eq!(queue.len(), 11);

    // The first popped item should be the sync request
    let popped = queue.pop().expect("Queue shouldn't be empty");
    assert!(matches!(popped, ProtocolMessage::SyncRequest(_)));

    // The remaining 10 items should be transactions
    for _ in 0..10 {
        let p = queue.pop().expect("Should have normal items");
        assert!(matches!(p, ProtocolMessage::Transaction(_)));
    }

    assert!(queue.is_empty());
}

#[test]
fn priority_tiers_of_messages() {
    assert_eq!(MessagePriority::for_message(&make_tx()), MessagePriority::Normal);
    assert_eq!(MessagePriority::for_message(&make_sync()), MessagePriority::High);
}

#[test]
fn pop_on_empty_queue_is_none() {
    let mut queue = PriorityQueue::default();
    assert!(queue.pop().is_none());
    assert_eq!(queue.len(), 0);
}

#[test]
fn iter_envelopes_skips_control_messages() {
    let mut queue = PriorityQueue::new();
    queue.push(make_sync());
    queue.push(make_tx());
    queue.push(make_sync());
    assert_eq!(queue.iter_envelopes().len(), 1);
}
