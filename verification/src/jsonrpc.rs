//! The JSON-RPC envelope as the core sees it. Request and response bodies
//! are decoded at the transport edge and handed over as plain values; the
//! core never interprets `params`, and echoes `id` verbatim (including an
//! absent one) into every response it produces itself.

use vstd::prelude::*;
use vstd::string::StringExecFns;

verus! {

/// A JSON value, carried through the core untouched. Numbers keep their
/// decimal text so nothing is rounded on the way through.
#[derive(Debug)]
pub enum JsonValue {
    Null,
    Bool(bool),
    Num(String),
    Str(String),
    Arr(Vec<JsonValue>),
    Obj(Vec<(String, JsonValue)>),
}

/// One inbound call.
#[derive(Debug)]
pub struct JsonRpcRequest {
    pub jsonrpc: String,
    pub method: String,
    pub params: Option<JsonValue>,
    pub id: Option<JsonValue>,
}

/// One reply, from the upstream or from the core itself. When `id` is
/// present, exactly one of `result` and `error` is.
#[derive(Debug)]
pub struct JsonRpcResponse {
    pub jsonrpc: String,
    pub result: Option<JsonValue>,
    pub error: Option<JsonRpcError>,
    pub id: Option<JsonValue>,
}

/// The error member of a reply.
#[derive(Debug)]
pub struct JsonRpcError {
    pub code: i32,
    pub message: String,
    pub data: Option<JsonValue>,
}

/// Builds the error reply the core sends for a rejected request: protocol
/// "2.0", no result, the given code and message, and the request's own id.
pub fn error_response(code: i32, message: &str, id: Option<JsonValue>) -> (r: JsonRpcResponse)
    ensures
        r.jsonrpc@ == "2.0"@,
        r.result is None,
        r.error matches Some(e) && e.code == code && e.message@ == message@ && e.data is None,
        r.id == id,
{
    JsonRpcResponse {
        jsonrpc: String::from_str("2.0"),
        result: None,
        error: Some(JsonRpcError { code, message: String::from_str(message), data: None }),
        id,
    }
}

} // verus!
