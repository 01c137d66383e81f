use greentic_mcp_client::error::{McpError, ProtoError, ServerError};
use greentic_mcp_client::json::Json;
use greentic_mcp_client::proto::{
    build_initialize, build_initialized, build_tools_call, build_tools_list, extract_result,
    extract_tool_output, map_tools_list, parse_jsonrpc_response, PROTOCOL_VERSION,
};

fn json(text: &str) -> Json {
    Json::parse(text).unwrap()
}

fn at<'a>(v: &'a Json, path: &[&str]) -> &'a Json {
    let mut cur = v;
    for key in path {
        cur = cur.get(key).unwrap_or_else(|| panic!("missing member {key}"));
    }
    cur
}

fn text_at<'a>(v: &'a Json, path: &[&str]) -> &'a str {
    at(v, path).as_str().expect("a string")
}

#[test]
fn initialize_has_protocol_and_client_info() {
    let req = build_initialize(1, PROTOCOL_VERSION, "test-client", "9.9.9");
    assert_eq!(text_at(&req, &["jsonrpc"]), "2.0");
    assert_eq!(at(&req, &["id"]).as_u64(), Some(1));
    assert_eq!(text_at(&req, &["method"]), "initialize");
    assert_eq!(text_at(&req, &["params", "protocolVersion"]), "2025-06-18");
    assert_eq!(text_at(&req, &["params", "clientInfo", "name"]), "test-client");
    assert_eq!(text_at(&req, &["params", "clientInfo", "version"]), "9.9.9");
}

#[test]
fn initialized_is_a_notification_without_id() {
    let req = build_initialized();
    assert_eq!(text_at(&req, &["method"]), "notifications/initialized");
    assert!(req.get("id").is_none());
}

#[test]
fn tools_list_shape() {
    let req = build_tools_list(2);
    assert_eq!(at(&req, &["id"]).as_u64(), Some(2));
    assert_eq!(text_at(&req, &["method"]), "tools/list");
}

#[test]
fn tools_call_carries_name_and_arguments() {
    let req = build_tools_call(
        2,
        "get_issue",
        &json(r#"{ "owner": "o", "repo": "r", "issue_number": 1 }"#),
    );
    assert_eq!(text_at(&req, &["method"]), "tools/call");
    assert_eq!(text_at(&req, &["params", "name"]), "get_issue");
    assert_eq!(text_at(&req, &["params", "arguments", "repo"]), "r");
}

#[test]
fn parses_plain_json_response() {
    let body = br#"{"jsonrpc":"2.0","id":2,"result":{"tools":[]}}"#;
    let value = parse_jsonrpc_response("application/json", body, 2).unwrap();
    assert_eq!(at(&value, &["id"]).as_u64(), Some(2));
    assert!(at(&value, &["result", "tools"]).as_array().is_some());
}

#[test]
fn unwraps_sse_response_and_matches_id() {
    let body =
        b"event: message\ndata: {\"jsonrpc\":\"2.0\",\"id\":2,\"result\":{\"ok\":true}}\n\n";
    let value = parse_jsonrpc_response("text/event-stream; charset=utf-8", body, 2).unwrap();
    assert_eq!(at(&value, &["result", "ok"]).as_bool(), Some(true));
}

#[test]
fn sse_picks_matching_id_among_multiple_events() {
    let body = b"data: {\"jsonrpc\":\"2.0\",\"id\":1,\"result\":{\"first\":true}}\n\ndata: {\"jsonrpc\":\"2.0\",\"id\":2,\"result\":{\"second\":true}}\n\n";
    let value = parse_jsonrpc_response("text/event-stream", body, 2).unwrap();
    assert_eq!(at(&value, &["result", "second"]).as_bool(), Some(true));
}

#[test]
fn sse_concatenates_multiline_data() {
    let body = b"data: {\"jsonrpc\":\"2.0\",\"id\":2,\ndata: \"result\":{\"ok\":true}}\n\n";
    let value = parse_jsonrpc_response("text/event-stream", body, 2).unwrap();
    assert_eq!(at(&value, &["result", "ok"]).as_bool(), Some(true));
}

#[test]
fn sse_with_only_notifications_is_no_envelope() {
    let body = b"data: {\"jsonrpc\":\"2.0\",\"method\":\"ping\"}\n\n";
    let err = parse_jsonrpc_response("text/event-stream", body, 2).unwrap_err();
    assert!(matches!(err, ProtoError::NoEnvelope));
}

#[test]
fn malformed_json_body_is_decode_error() {
    let err = parse_jsonrpc_response("application/json", b"{not json", 2).unwrap_err();
    assert!(matches!(err, ProtoError::Decode(_)));
}

#[test]
fn extract_result_returns_result() {
    let env = json(r#"{ "jsonrpc": "2.0", "id": 2, "result": { "x": 1 } }"#);
    assert_eq!(at(&extract_result(&env).unwrap(), &["x"]).as_u64(), Some(1));
}

#[test]
fn extract_result_surfaces_server_error() {
    let env = json(
        r#"{ "jsonrpc": "2.0", "id": 2, "error": { "code": -32602, "message": "bad params" } }"#,
    );
    let err = extract_result(&env).unwrap_err();
    match err {
        McpError::Server(ServerError { code, message }) => {
            assert_eq!(code, -32602);
            assert_eq!(message, "bad params");
        }
        other => panic!("expected Server error, got: {other:?}"),
    }
}

#[test]
fn extract_result_missing_both_is_proto_error() {
    let env = json(r#"{ "jsonrpc": "2.0", "id": 2 }"#);
    let err = extract_result(&env).unwrap_err();
    assert!(matches!(err, McpError::Proto(ProtoError::MissingResult)));
}

#[test]
fn maps_tools_list_with_value_schema() {
    let result = json(
        r#"{
            "tools": [
                { "name": "get_issue", "description": "Get an issue",
                  "inputSchema": { "type": "object", "properties": { "repo": { "type": "string" } } } },
                { "name": "search_code", "description": "Search code", "inputSchema": { "type": "object" } }
            ]
        }"#,
    );
    let defs = map_tools_list(&result);
    assert_eq!(defs.len(), 2);
    assert_eq!(defs[0].name, "get_issue");
    assert_eq!(text_at(&defs[0].input_schema, &["properties", "repo", "type"]), "string");
}

#[test]
fn map_tools_list_missing_tools_returns_empty() {
    assert!(map_tools_list(&json("{}")).is_empty());
}

#[test]
fn map_tools_list_drops_tool_without_name() {
    let result = json(
        r#"{ "tools": [
            { "name": "good_tool", "description": "ok" },
            { "description": "no name here" }
        ]}"#,
    );
    let defs = map_tools_list(&result);
    assert_eq!(defs.len(), 1);
    assert_eq!(defs[0].name, "good_tool");
}

#[test]
fn map_tools_list_missing_schema_defaults_to_empty_object() {
    let result = json(r#"{ "tools": [{ "name": "t", "description": "d" }] }"#);
    let defs = map_tools_list(&result);
    assert_eq!(defs[0].input_schema, json("{}"));
}

#[test]
fn extract_tool_output_joins_text_content() {
    let result = json(
        r#"{ "content": [ { "type": "text", "text": "line1" }, { "type": "text", "text": "line2" } ] }"#,
    );
    let out = extract_tool_output(&result).unwrap();
    assert_eq!(out.text, "line1\nline2");
    assert!(out.structured.is_none());
    assert_eq!(out.to_value(), json(r#""line1\nline2""#));
}

#[test]
fn extract_tool_output_keeps_structured_content() {
    let result = json(
        r#"{ "structuredContent": { "number": 7 }, "content": [ { "type": "text", "text": "also text" } ] }"#,
    );
    let out = extract_tool_output(&result).unwrap();
    assert_eq!(out.structured, Some(json(r#"{ "number": 7 }"#)));
    assert_eq!(out.text, "also text");
    assert_eq!(out.to_value(), json(r#"{ "number": 7 }"#));
}

#[test]
fn extract_tool_output_is_error_maps_to_err() {
    let result =
        json(r#"{ "isError": true, "content": [ { "type": "text", "text": "not found" } ] }"#);
    let err = extract_tool_output(&result).unwrap_err();
    assert_eq!(err.message, "not found");
}

#[test]
fn extract_tool_output_is_error_without_payload_has_default_message() {
    let result = json(r#"{ "isError": true }"#);
    let err = extract_tool_output(&result).unwrap_err();
    assert_eq!(err.message, "tool call returned isError");
}

#[test]
fn extract_tool_output_empty_content_returns_empty_ok() {
    let result = json(r#"{ "content": [] }"#);
    let out = extract_tool_output(&result).unwrap();
    assert_eq!(out.text, "");
}
