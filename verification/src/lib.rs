//! A client library for the Copilot CLI's JSON-RPC 2.0 protocol: message
//! framing, JSON-RPC messages and client state, subprocess options, and the
//! configuration and protocol types.

pub mod error;
pub mod framing;
pub mod json;
pub mod jsonrpc;
pub mod process;
pub mod session_lifecycle_event_types;
pub mod strmap;
pub mod text;
pub mod types;
