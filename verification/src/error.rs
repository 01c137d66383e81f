//! Error types of the protocol layer, with their views.
use vstd::prelude::*;

verus! {

/// A JSON text that the decoder rejected, with the decoder's message.
#[derive(Debug, PartialEq, Eq)]
pub struct JsonSyntaxError {
    pub message: String,
}

/// Failure decoding a JSON-RPC envelope from an HTTP body.
#[derive(Debug, PartialEq, Eq)]
pub enum ProtoError {
    /// The body is not well-formed UTF-8.
    NotUtf8(crate::text::Utf8Failure),
    /// The body (or the chosen event) is not a JSON document.
    Decode(JsonSyntaxError),
    /// An event stream carried no JSON-RPC envelope.
    NoEnvelope,
    /// An envelope carried neither `result` nor `error`.
    MissingResult,
}

/// A JSON-RPC `error` object returned by the server.
#[derive(Debug, PartialEq, Eq)]
pub struct ServerError {
    pub code: i64,
    pub message: String,
}

/// A `tools/call` result carrying `isError: true`. The message is the
/// server-provided error payload (structured content as JSON text, or the
/// joined text blocks).
#[derive(Debug, PartialEq, Eq)]
pub struct ToolCallError {
    pub message: String,
}

/// Error surface of the client operations.
#[derive(Debug, PartialEq, Eq)]
pub enum McpError {
    Proto(ProtoError),
    Server(ServerError),
    ToolCall(ToolCallError),
    BadInitialize(String),
}

/// View of a [`ProtoError`].
pub enum ProtoErrorView {
    /// The longest well-formed prefix and the length of the invalid sequence.
    NotUtf8(int, Option<usize>),
    Decode(Seq<char>),
    NoEnvelope,
    MissingResult,
}

/// View of an [`McpError`].
pub enum McpErrorView {
    Proto(ProtoErrorView),
    Server(i64, Seq<char>),
    ToolCall(Seq<char>),
    BadInitialize(Seq<char>),
}

impl View for ProtoError {
    type V = ProtoErrorView;

    open spec fn view(&self) -> ProtoErrorView {
        match self {
            ProtoError::NotUtf8(e) => ProtoErrorView::NotUtf8(e.valid_up_to as int, e.error_len),
            ProtoError::Decode(e) => ProtoErrorView::Decode(e.message@),
            ProtoError::NoEnvelope => ProtoErrorView::NoEnvelope,
            ProtoError::MissingResult => ProtoErrorView::MissingResult,
        }
    }
}

impl View for McpError {
    type V = McpErrorView;

    open spec fn view(&self) -> McpErrorView {
        match self {
            McpError::Proto(e) => McpErrorView::Proto(e@),
            McpError::Server(e) => McpErrorView::Server(e.code, e.message@),
            McpError::ToolCall(e) => McpErrorView::ToolCall(e.message@),
            McpError::BadInitialize(m) => McpErrorView::BadInitialize(m@),
        }
    }
}

} // verus!
