use vstd::prelude::*;

use crate::json::JsonValue;
use std::time::Duration;

verus! {

/// Errors that the SDK's own logic reports.
#[derive(Debug)]
pub enum CopilotError {
    /// The peer answered a request with a JSON-RPC error.
    JsonRpc { code: i32, message: String, data: Option<JsonValue> },
    /// The connection closed before an answer came.
    ConnectionClosed,
    /// No answer came within the given time.
    Timeout(Duration),
    /// The client or a process was set up or used in a way it does not allow.
    InvalidConfig(String),
    /// A tool invocation lacked what the tool needed.
    ToolError(String),
}

} // verus!
