//! Client core for remote MCP servers speaking JSON-RPC 2.0 (protocol
//! `2025-06-18`) over Streamable HTTP or newline-delimited stdio.
//!
//! Everything here is sans-io: request builders, SSE-aware response
//! parsing, the mapping of tool lists and tool results, auth headers and the
//! per-session request state. Transports drive it with the bytes they move.
pub mod auth;
pub mod client;
pub mod codec;
pub mod error;
pub mod json;
pub mod proto;
pub mod sse;
pub mod text;

pub use auth::McpAuth;
pub use client::{McpClientOptions, McpSession, ServerInfo};
pub use error::{McpError, ProtoError, ServerError, ToolCallError};
pub use json::Json;
pub use proto::{McpToolDef, ToolOutput, PROTOCOL_VERSION};
