use greentic_mcp_client::client::{
    finish_call_tool, finish_initialize, finish_list_tools, initialized_message,
    response_content_type, SESSION_HEADER,
};
use greentic_mcp_client::{
    Json, McpAuth, McpClientOptions, McpError, McpSession, ProtoError, ServerInfo,
};
use std::time::Duration;

fn json(text: &str) -> Json {
    Json::parse(text).unwrap()
}

#[test]
fn default_options() {
    let opts = McpClientOptions::default();
    assert_eq!(opts.timeout, Duration::from_secs(30));
    assert_eq!(opts.client_name, "greentic-mcp-client");
    assert_eq!(opts.client_version, "0.1.0");
}

#[test]
fn ids_start_at_one_and_increase() {
    let mut s = McpSession::new();
    assert_eq!(s.next_id(), 1);
    assert_eq!(s.take_id(), 1);
    assert_eq!(s.take_id(), 2);
    let (id, payload) = s.begin_list_tools();
    assert_eq!(id, 3);
    assert_eq!(payload.get("id").and_then(Json::as_u64), Some(3));
    assert_eq!(s.next_id(), 4);
}

#[test]
fn session_header_is_replayed_after_it_is_assigned() {
    let mut s = McpSession::new();
    let before = s.request_headers(None);
    assert_eq!(
        before,
        vec![
            ("Content-Type".to_string(), "application/json".to_string()),
            ("Accept".to_string(), "application/json, text/event-stream".to_string()),
        ]
    );
    s.record_response(Some("sess-123"));
    s.record_response(None);
    assert_eq!(s.session_id(), Some("sess-123"));
    let auth = McpAuth::bearer("tok-1");
    let after = s.request_headers(Some(&auth));
    assert_eq!(after.len(), 4);
    assert_eq!(after[2], ("Authorization".to_string(), "Bearer tok-1".to_string()));
    assert_eq!(after[3], (SESSION_HEADER.to_string(), "sess-123".to_string()));
    s.record_response(Some("sess-456"));
    assert_eq!(s.session_id(), Some("sess-456"));
}

#[test]
fn begin_initialize_uses_options() {
    let mut s = McpSession::new();
    let mut opts = McpClientOptions::default();
    opts.client_name = "tester".to_string();
    let (id, payload) = s.begin_initialize(&opts);
    assert_eq!(id, 1);
    let info = payload.get("params").and_then(|p| p.get("clientInfo")).unwrap();
    assert_eq!(info.get("name").and_then(Json::as_str), Some("tester"));
    assert_eq!(
        payload.get("params").and_then(|p| p.get("protocolVersion")).and_then(Json::as_str),
        Some("2025-06-18")
    );
    assert!(initialized_message().get("id").is_none());
}

#[test]
fn content_type_defaults_to_json() {
    assert_eq!(response_content_type(None), "application/json");
    assert_eq!(response_content_type(Some("text/event-stream")), "text/event-stream");
}

#[test]
fn initialize_reads_server_info() {
    let env = json(
        r#"{"jsonrpc":"2.0","id":1,"result":{"protocolVersion":"2025-06-18",
            "serverInfo":{"name":"fake-server","version":"1.0.0"}}}"#,
    );
    let info = finish_initialize(&env).unwrap();
    assert_eq!(
        info,
        ServerInfo {
            name: "fake-server".into(),
            version: "1.0.0".into(),
            protocol_version: "2025-06-18".into()
        }
    );
}

#[test]
fn initialize_defaults_missing_strings_to_empty() {
    let env = json(r#"{"id":1,"result":{"serverInfo":{"name":7}}}"#);
    let info = finish_initialize(&env).unwrap();
    assert_eq!(info.name, "");
    assert_eq!(info.version, "");
    assert_eq!(info.protocol_version, "");
}

#[test]
fn initialize_without_server_info_is_bad_initialize() {
    let env = json(r#"{"id":1,"result":{"protocolVersion":"x"}}"#);
    assert_eq!(
        finish_initialize(&env).unwrap_err(),
        McpError::BadInitialize("missing serverInfo in initialize result".to_string())
    );
}

#[test]
fn list_tools_passes_server_errors_through() {
    let env = json(r#"{"id":2,"error":{"code":-32601,"message":"no such method"}}"#);
    match finish_list_tools(&env).unwrap_err() {
        McpError::Server(e) => {
            assert_eq!(e.code, -32601);
            assert_eq!(e.message, "no such method");
        }
        other => panic!("unexpected {other:?}"),
    }
    let env = json(r#"{"id":2,"result":{"tools":[{"name":"echo"}]}}"#);
    let tools = finish_list_tools(&env).unwrap();
    assert_eq!(tools.len(), 1);
    assert_eq!(tools[0].name, "echo");
    assert_eq!(tools[0].description, "");
}

#[test]
fn call_tool_maps_is_error_to_tool_call() {
    let env = json(r#"{"id":3,"result":{"isError":true,"content":[{"type":"text","text":"unknown tool"}]}}"#);
    match finish_call_tool(&env).unwrap_err() {
        McpError::ToolCall(e) => assert_eq!(e.message, "unknown tool"),
        other => panic!("unexpected {other:?}"),
    }
    let env = json(r#"{"id":3}"#);
    assert_eq!(
        finish_call_tool(&env).unwrap_err(),
        McpError::Proto(ProtoError::MissingResult)
    );
}
