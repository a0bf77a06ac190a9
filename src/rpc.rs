use vstd::prelude::*;
use crate::json::Json;

verus! {

/// The `error` member of a JSON-RPC response.
#[derive(Debug, PartialEq)]
pub struct JsonRpcError {
    pub error: String,
    pub details: String,
}

/// A JSON-RPC response: its id, and a result or an error.
#[derive(Debug, PartialEq)]
pub struct JsonRpcResult {
    pub id: u32,
    pub result: Option<Json>,
    pub error: Option<JsonRpcError>,
}

/// Why a JSON-RPC response yields no result.
#[derive(Debug, PartialEq)]
pub enum RpcFailure {
    /// The server answered with an error.
    Remote { error: String, details: String },
    /// The response answers another request.
    IdMismatch { expected: u32, got: u32 },
    /// The response holds neither an error nor a result.
    NoResult,
}

/// The result of a response to the request `expect_id`. A reported error comes
/// first, then a mismatched id, then a missing result.
pub fn jsonrpc_result(expect_id: u32, result: JsonRpcResult) -> (r: Result<Json, RpcFailure>)
    ensures
        match result.error {
            Some(e) => r == Err::<Json, RpcFailure>(RpcFailure::Remote { error: e.error, details: e.details }),
            None => if result.id != expect_id {
                r == Err::<Json, RpcFailure>(RpcFailure::IdMismatch { expected: expect_id, got: result.id })
            } else {
                match result.result {
                    Some(v) => r == Ok::<Json, RpcFailure>(v),
                    None => r == Err::<Json, RpcFailure>(RpcFailure::NoResult),
                }
            },
        },
{
    let JsonRpcResult { id, result: value, error } = result;
    if let Some(e) = error {
        return Err(RpcFailure::Remote { error: e.error, details: e.details });
    }
    if id != expect_id {
        return Err(RpcFailure::IdMismatch { expected: expect_id, got: id });
    }
    match value {
        Some(v) => Ok(v),
        None => Err(RpcFailure::NoResult),
    }
}

} // verus!
