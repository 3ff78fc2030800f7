//! Requests to and answers from a Soroban JSON-RPC server.
use vstd::prelude::*;

use crate::text::join_str;

verus! {

/// JSON-RPC request structure for Soroban RPC
#[derive(Debug)]
pub struct SorobanRpcRequest {
    pub jsonrpc: &'static str,
    pub id: u64,
    pub method: &'static str,
    pub params: SendTxParams,
}

/// Parameters for the sendTransaction method
#[derive(Debug)]
pub struct SendTxParams {
    /// The raw base64-encoded XDR
    pub transaction: String,
}

/// JSON-RPC response structure from Soroban RPC
#[derive(Debug)]
pub struct SorobanRpcResponse {
    pub id: u64,
    pub result: Option<TxResultData>,
    pub error: Option<RpcError>,
}

/// Transaction result data
#[derive(Debug)]
pub struct TxResultData {
    /// e.g. "PENDING" or "ERROR"
    pub status: String,
    pub hash: Option<String>,
}

/// RPC error structure
#[derive(Debug, Clone)]
pub struct RpcError {
    pub code: i32,
    pub message: String,
}

/// Code of a request that could not be sent or answered.
pub const HTTP_FAILURE_CODE: i32 = -1;

/// Code of an answer that is not a JSON-RPC response.
pub const PARSE_FAILURE_CODE: i32 = -2;

/// Code of a result that carries no transaction hash.
pub const NO_HASH_CODE: i32 = -3;

/// Code of a response with neither a result nor an error.
pub const EMPTY_RESPONSE_CODE: i32 = -4;

/// The `sendTransaction` request (JSON-RPC 2.0, id 1) for `tx_xdr`.
pub fn send_transaction_request(tx_xdr: &str) -> (req: SorobanRpcRequest)
    ensures
        req.jsonrpc@ == "2.0"@,
        req.id == 1,
        req.method@ == "sendTransaction"@,
        req.params.transaction@ == tx_xdr@,
{
    SorobanRpcRequest {
        jsonrpc: "2.0",
        id: 1,
        method: "sendTransaction",
        params: SendTxParams { transaction: String::from_str(tx_xdr) },
    }
}

/// The error for a request that failed in transport, with the failure's description.
pub fn http_failure(detail: &str) -> (e: RpcError)
    ensures
        e.code == HTTP_FAILURE_CODE,
        e.message@ == "HTTP request failed: "@ + detail@,
{
    RpcError { code: HTTP_FAILURE_CODE, message: join_str("HTTP request failed: ", detail) }
}

/// The error for an answer that could not be read, with the failure's description.
pub fn parse_failure(detail: &str) -> (e: RpcError)
    ensures
        e.code == PARSE_FAILURE_CODE,
        e.message@ == "Failed to parse JSON response: "@ + detail@,
{
    RpcError {
        code: PARSE_FAILURE_CODE,
        message: join_str("Failed to parse JSON response: ", detail),
    }
}

/// What a `sendTransaction` response yields: the server's error if it sent
/// one; otherwise the transaction hash of the result; an error with code -3
/// naming the status when the result has no hash; an error with code -4 when
/// there is neither a result nor an error.
pub fn transaction_hash_from(resp: SorobanRpcResponse) -> (res: Result<String, RpcError>)
    ensures
        match resp.error {
            Some(e) => res matches Err(r) && r.code == e.code && r.message@ == e.message@,
            None => match resp.result {
                Some(result) => match result.hash {
                    Some(h) => res matches Ok(s) && s@ == h@,
                    None => res matches Err(r) && r.code == NO_HASH_CODE && r.message@ == "Transaction status: "@
                        + result.status@ + " but no hash returned"@,
                },
                None => res matches Err(r) && r.code == EMPTY_RESPONSE_CODE && r.message@
                    == "No result or error in RPC response"@,
            },
        },
{
    if let Some(error) = resp.error {
        return Err(error);
    }
    match resp.result {
        Some(result) => match result.hash {
            Some(hash) => Ok(hash),
            None => {
                let head = join_str("Transaction status: ", result.status.as_str());
                let message = join_str(head.as_str(), " but no hash returned");
                Err(RpcError { code: NO_HASH_CODE, message })
            },
        },
        None => Err(
            RpcError {
                code: EMPTY_RESPONSE_CODE,
                message: String::from_str("No result or error in RPC response"),
            },
        ),
    }
}

} // verus!
