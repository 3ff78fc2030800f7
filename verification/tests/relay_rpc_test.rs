use stellarconduit_core::relay::decode_hash_32;
use stellarconduit_core::relay::rpc_client::{
    http_failure, parse_failure, send_transaction_request, transaction_hash_from, RpcError,
    SorobanRpcResponse, TxResultData,
};

#[test]
fn request_is_send_transaction_with_xdr() {
    let req = send_transaction_request("AAAAAgAAAADZ/7+9/7+9/7+9");
    assert_eq!(req.jsonrpc, "2.0");
    assert_eq!(req.id, 1);
    assert_eq!(req.method, "sendTransaction");
    assert_eq!(req.params.transaction, "AAAAAgAAAADZ/7+9/7+9/7+9");
}

#[test]
fn response_with_hash_yields_hash() {
    let resp = SorobanRpcResponse {
        id: 1,
        result: Some(TxResultData {
            status: "PENDING".to_string(),
            hash: Some("abc123def456".to_string()),
        }),
        error: None,
    };
    assert_eq!(transaction_hash_from(resp).unwrap(), "abc123def456");
}

#[test]
fn response_with_error_yields_that_error() {
    let resp = SorobanRpcResponse {
        id: 1,
        result: None,
        error: Some(RpcError {
            code: -32600,
            message: "Invalid transaction format".to_string(),
        }),
    };
    let err = transaction_hash_from(resp).unwrap_err();
    assert_eq!(err.code, -32600);
    assert_eq!(err.message, "Invalid transaction format");
}

#[test]
fn response_without_hash_is_code_minus_3() {
    let resp = SorobanRpcResponse {
        id: 1,
        result: Some(TxResultData {
            status: "ERROR".to_string(),
            hash: None,
        }),
        error: None,
    };
    let err = transaction_hash_from(resp).unwrap_err();
    assert_eq!(err.code, -3);
    assert_eq!(err.message, "Transaction status: ERROR but no hash returned");
}

#[test]
fn empty_response_is_code_minus_4() {
    let resp = SorobanRpcResponse {
        id: 7,
        result: None,
        error: None,
    };
    let err = transaction_hash_from(resp).unwrap_err();
    assert_eq!(err.code, -4);
    assert_eq!(err.message, "No result or error in RPC response");
}

#[test]
fn transport_failures_have_their_codes() {
    let e = http_failure("connection refused");
    assert_eq!(e.code, -1);
    assert_eq!(e.message, "HTTP request failed: connection refused");
    let e = parse_failure("expected value");
    assert_eq!(e.code, -2);
    assert_eq!(e.message, "Failed to parse JSON response: expected value");
}

#[test]
fn hash_decodes_with_and_without_prefix() {
    let text = "ab".repeat(32);
    assert_eq!(decode_hash_32(&text, "transaction hash"), Ok([0xABu8; 32]));
    let prefixed = format!("0x{}", "CD".repeat(32));
    assert_eq!(decode_hash_32(&prefixed, "ledger hash"), Ok([0xCDu8; 32]));
}

#[test]
fn hash_of_wrong_length_is_rejected() {
    assert_eq!(
        decode_hash_32("abcd", "ledger hash"),
        Err("invalid ledger hash: expected 32 bytes, got 2".to_string())
    );
}

#[test]
fn hash_with_bad_digit_is_rejected() {
    let err = decode_hash_32("zz", "transaction hash").unwrap_err();
    assert!(err.starts_with("invalid transaction hash: "));
    assert_ne!(err, "invalid transaction hash: ");
    let odd = decode_hash_32("abc", "transaction hash").unwrap_err();
    assert!(odd.starts_with("invalid transaction hash: "));
}

#[test]
fn encoded_hash_decodes_back() {
    let mut h = [0u8; 32];
    for (i, b) in h.iter_mut().enumerate() {
        *b = (i as u8).wrapping_mul(29).wrapping_add(3);
    }
    assert_eq!(decode_hash_32(&hex::encode(h), "ledger hash"), Ok(h));
}
