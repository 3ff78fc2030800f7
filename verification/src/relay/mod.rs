//! Submitting relayed transactions to the Stellar network.
pub mod dedup;
pub mod rpc_client;

use vstd::prelude::*;
use vstd::string::StringSliceAdditionalSpecFns;

use crate::keys::{has_key, key_pos};
use crate::lru_cache::{lru_stored, lru_touched};
use crate::message::types::TransactionEnvelope;
use crate::peer::identity::{hex_lower, lemma_hex_lower_decodes};
use crate::relay::dedup::RelayDeduplicator;
use crate::text::{
    decimal, decimal_text, hex_decodable, hex_decode, hex_decoded, hex_error_text, join_str,
};

verus! {

/// Errors returned by the Stellar RPC layer.
#[derive(Debug, Clone, PartialEq, Eq)]
pub enum RpcError {
    /// The server answered with an HTTP error status.
    Http { status: u16, body: String },
    /// The network refused the transaction.
    TransactionRejected { reason: String },
    /// The request could not be completed.
    Network(String),
    /// No answer came within the time limit.
    Timeout { timeout_ms: u64 },
}

/// The text after an optional `0x` prefix.
pub open spec fn without_0x(bytes: Seq<u8>) -> Seq<u8> {
    if bytes.len() >= 2 && bytes[0] == 48 && bytes[1] == 120 {
        bytes.skip(2)
    } else {
        bytes
    }
}

/// What decoding a 32-byte hash written as `text` (hexadecimal, optionally
/// after `0x`) gives: the bytes, or the error message naming `label`.
pub open spec fn hash_32_outcome(text: Seq<u8>, label: Seq<char>, res: Result<[u8; 32], String>) -> bool {
    let digits = without_0x(text);
    match res {
        Ok(h) => hex_decodable(digits) && hex_decoded(digits).len() == 32 && h@ == hex_decoded(digits),
        Err(msg) => if !hex_decodable(digits) {
            msg@ == "invalid "@ + label + ": "@ + hex_error_text(digits)
        } else {
            &&& hex_decoded(digits).len() != 32
            &&& msg@ == "invalid "@ + label + ": expected 32 bytes, got "@ + decimal_text(
                hex_decoded(digits).len(),
            )
        },
    }
}

/// Decodes a 32-byte hash written in hexadecimal, optionally after `0x`;
/// errors name the hash by `label`.
pub fn decode_hash_32(hash: &str, label: &str) -> (res: Result<[u8; 32], String>)
    ensures
        hash_32_outcome(hash.spec_bytes(), label@, res),
{
    let bytes = hash.as_bytes();
    let digits = if bytes.len() >= 2 && bytes[0] == 48 && bytes[1] == 120 {
        vstd::slice::slice_subrange(bytes, 2, bytes.len())
    } else {
        bytes
    };
    assert(digits@ =~= without_0x(hash.spec_bytes()));
    let decoded = match hex_decode(digits) {
        Ok(v) => v,
        Err(e) => {
            let head = join_str("invalid ", label);
            let head = join_str(head.as_str(), ": ");
            let msg = join_str(head.as_str(), e.as_str());
            return Err(msg);
        },
    };
    if decoded.len() != 32 {
        let head = join_str("invalid ", label);
        let head = join_str(head.as_str(), ": expected 32 bytes, got ");
        let count = decimal(decoded.len());
        let msg = join_str(head.as_str(), count.as_str());
        return Err(msg);
    }
    let mut out = [0u8; 32];
    let mut i: usize = 0;
    while i < 32
        invariant
            decoded@.len() == 32,
            i <= 32,
            forall|j: int| 0 <= j < i ==> out@[j] == decoded@[j],
        decreases 32 - i,
    {
        out[i] = decoded[i];
        i += 1;
    }
    assert(out@ =~= decoded@);
    Ok(out)
}

/// A hash written as lowercase hexadecimal (`hex::encode`) decodes back to itself.
pub proof fn lemma_hash_32_round_trip(hash: [u8; 32], label: Seq<char>, res: Result<[u8; 32], String>)
    requires
        hash_32_outcome(vstd::utf8::encode_utf8(hex_lower(hash@)), label, res),
    ensures
        res == Ok::<[u8; 32], String>(hash),
{
    let text = vstd::utf8::encode_utf8(hex_lower(hash@));
    lemma_hex_lower_decodes(hash@);
    assert(without_0x(text) == text);
    if let Ok(h) = res {
        assert(h@ =~= hash@);
        assert(h == hash);
    }
}

/// What a relay does with an incoming envelope.
#[derive(Debug, Clone, PartialEq, Eq)]
pub enum RelayStep {
    /// The envelope was submitted before: answer with its transaction hash.
    Cached(String),
    /// The envelope is new: submit its transaction.
    Submit,
}

/// The first step of relaying `envelope`: a duplicate (an id whose result is
/// still cached) is answered from the cache, anything else is submitted.
pub fn begin_relay(dedup: &mut RelayDeduplicator, envelope: &TransactionEnvelope) -> (step: RelayStep)
    requires
        old(dedup).wf(),
    ensures
        final(dedup).wf(),
        final(dedup).results() == lru_touched(old(dedup).results(), envelope.message_id),
        final(dedup).capacity() == old(dedup).capacity(),
        final(dedup).seen() == old(dedup).seen(),
        match step {
            RelayStep::Cached(h) => has_key(old(dedup).results(), envelope.message_id) && h@ == old(
                dedup,
            ).results()[key_pos(old(dedup).results(), envelope.message_id)].1,
            RelayStep::Submit => !has_key(old(dedup).results(), envelope.message_id),
        },
{
    match dedup.check(&envelope.message_id) {
        Some(hash) => RelayStep::Cached(hash),
        None => RelayStep::Submit,
    }
}

/// The step after the network accepted the transaction of envelope
/// `message_id` under hash `tx_hash`: the hash must be 32 bytes of hexadecimal
/// (a network error otherwise, leaving the cache as it was); it is then cached
/// for the id and its bytes are returned.
pub fn finish_relay(dedup: &mut RelayDeduplicator, message_id: [u8; 32], tx_hash: String) -> (res: Result<[u8; 32], RpcError>)
    requires
        old(dedup).wf(),
    ensures
        final(dedup).wf(),
        final(dedup).capacity() == old(dedup).capacity(),
        match res {
            Ok(id) => {
                &&& hash_32_outcome(
                    vstd::utf8::encode_utf8(tx_hash@),
                    "transaction hash"@,
                    Ok(id),
                )
                &&& final(dedup).results() == lru_stored(
                    old(dedup).results(),
                    message_id,
                    tx_hash@,
                    old(dedup).capacity(),
                )
                &&& final(dedup).seen().holds(message_id)
            },
            Err(RpcError::Network(msg)) => {
                &&& hash_32_outcome(
                    vstd::utf8::encode_utf8(tx_hash@),
                    "transaction hash"@,
                    Err(msg),
                )
                &&& *final(dedup) == *old(dedup)
            },
            Err(_) => false,
        },
{
    match decode_hash_32(tx_hash.as_str(), "transaction hash") {
        Ok(id) => {
            dedup.mark_submitted(message_id, tx_hash);
            Ok(id)
        },
        Err(msg) => Err(RpcError::Network(msg)),
    }
}

} // verus!
