use greentic_mcp_client::json::{Json, JsonNumber};
use greentic_mcp_client::proto::{
    build_tools_call, build_tools_list, choose_from_envelopes, extract_result, extract_tool_output,
    json_object, json_str, match_response_line, member, parse_jsonrpc_response,
};
use greentic_mcp_client::text::Utf8Failure;
use greentic_mcp_client::{McpError, ProtoError};

#[test]
fn parse_builds_the_model() {
    let v = Json::parse(r#"{"b":[1,-2,2.5,"s",null,true],"a":{}}"#).unwrap();
    let Json::Object(members) = &v else { panic!("object expected") };
    assert_eq!(members.len(), 2);
    let items = v.get("b").and_then(Json::as_array).unwrap();
    assert_eq!(items[0], Json::Number(JsonNumber::PosInt(1)));
    assert_eq!(items[1], Json::Number(JsonNumber::NegInt(-2)));
    assert_eq!(items[2], Json::Number(JsonNumber::Float("2.5".to_string())));
    assert_eq!(items[3], Json::String("s".to_string()));
    assert_eq!(items[4], Json::Null);
    assert_eq!(items[5], Json::Bool(true));
}

#[test]
fn parse_rejects_bad_text_with_message() {
    let err = Json::parse("{not json").unwrap_err();
    assert!(!err.message.is_empty());
    assert!(Json::parse("").is_err());
}

#[test]
fn to_text_is_compact_json() {
    let v = Json::parse(r#"{ "number" : 7 , "list": [ 1.5, "x" ] }"#).unwrap();
    assert_eq!(v.to_text(), r#"{"list":[1.5,"x"],"number":7}"#);
    assert_eq!(Json::String("a\"b".into()).to_text(), r#""a\"b""#);
}

#[test]
fn accessors_follow_json_kinds() {
    let v = Json::parse(r#"{"big":18446744073709551615,"neg":-5,"f":1.0,"s":"t"}"#).unwrap();
    assert_eq!(v.get("big").and_then(Json::as_u64), Some(u64::MAX));
    assert_eq!(v.get("big").and_then(Json::as_i64), None);
    assert_eq!(v.get("neg").and_then(Json::as_i64), Some(-5));
    assert_eq!(v.get("neg").and_then(Json::as_u64), None);
    assert_eq!(v.get("f").and_then(Json::as_u64), None);
    assert_eq!(v.get("s").and_then(Json::as_str), Some("t"));
    assert!(v.get("missing").is_none());
    assert!(Json::Null.get("s").is_none());
}

#[test]
fn structured_error_message_is_compact_json() {
    let result = Json::parse(r#"{"isError":true,"structuredContent":{ "code" : 4 },"content":[{"text":"t"}]}"#).unwrap();
    assert_eq!(extract_tool_output(&result).unwrap_err().message, r#"{"code":4}"#);
}

#[test]
fn server_error_defaults() {
    let env = Json::parse(r#"{"error":{"code":"x"},"result":1}"#).unwrap();
    match extract_result(&env).unwrap_err() {
        McpError::Server(e) => {
            assert_eq!(e.code, 0);
            assert_eq!(e.message, "unknown error");
        }
        other => panic!("unexpected {other:?}"),
    }
}

#[test]
fn not_utf8_body_is_rejected() {
    let err = parse_jsonrpc_response("application/json", &[b'{', 0xff, 0xfe], 1).unwrap_err();
    assert_eq!(err, ProtoError::NotUtf8(Utf8Failure { valid_up_to: 1, error_len: Some(1) }));
    let err = parse_jsonrpc_response("application/json", &[b'a', 0xe2, 0x82], 1).unwrap_err();
    assert_eq!(err, ProtoError::NotUtf8(Utf8Failure { valid_up_to: 1, error_len: None }));
}

#[test]
fn content_type_case_is_ignored() {
    let body = b"data: {\"id\":5,\"result\":1}\n\n";
    let a = parse_jsonrpc_response("Text/Event-Stream", body, 5).unwrap();
    let b = parse_jsonrpc_response("text/event-stream", body, 5).unwrap();
    assert_eq!(a, b);
    assert!(parse_jsonrpc_response("application/json", body, 5).is_err());
}

#[test]
fn sse_falls_back_to_first_envelope_with_body() {
    let body = b": comment\ndata: {\"id\":1,\"result\":\"first\"}\n\ndata: not json\n\ndata: {\"id\":3,\"error\":{}}\n";
    let v = parse_jsonrpc_response("text/event-stream", body, 9).unwrap();
    assert_eq!(v.get("result").and_then(Json::as_str), Some("first"));
    let v = parse_jsonrpc_response("text/event-stream", body, 3).unwrap();
    assert!(v.get("error").is_some());
}

#[test]
fn sse_trailing_event_without_blank_line() {
    let body = b"data:{\"id\":2,\"result\":true}";
    let v = parse_jsonrpc_response("text/event-stream", body, 2).unwrap();
    assert_eq!(v.get("result").and_then(Json::as_bool), Some(true));
}

#[test]
fn sse_crlf_framing() {
    let body = b"data: {\"id\":2,\r\ndata: \"result\":7}\r\n\r\n";
    let v = parse_jsonrpc_response("text/event-stream", body, 2).unwrap();
    assert_eq!(v.get("result").and_then(Json::as_u64), Some(7));
}

#[test]
fn stdio_lines_are_matched_by_id() {
    assert!(match_response_line("", 1).is_none());
    assert!(match_response_line("   ", 1).is_none());
    assert!(match_response_line("log: starting", 1).is_none());
    assert!(match_response_line(r#"{"jsonrpc":"2.0","method":"notify"}"#, 1).is_none());
    assert!(match_response_line(r#"{"id":2,"result":{}}"#, 1).is_none());
    let v = match_response_line(r#"  {"id":1,"result":{"ok":true}}  "#, 1).unwrap();
    assert_eq!(v.get("result").and_then(|r| r.get("ok")).and_then(Json::as_bool), Some(true));
}

#[test]
fn stdio_line_and_sse_event_agree() {
    for line in [r#"{"id":4,"result":[]}"#, r#"{"id":5,"result":[]}"#, r#"{"id":4}"#, "junk"] {
        let body = format!("data: {line}\n\n");
        let sse = parse_jsonrpc_response("text/event-stream", body.as_bytes(), 4)
            .ok()
            .filter(|v| v.get("id").and_then(Json::as_u64) == Some(4));
        assert_eq!(match_response_line(line, 4), sse, "line {line}");
    }
}

#[test]
fn built_requests_equal_their_decoded_text() {
    let built = build_tools_list(2);
    let parsed =
        Json::parse(r#"{"params":{},"method":"tools/list","id":2,"jsonrpc":"2.0"}"#).unwrap();
    assert_eq!(built, parsed);
    let args = Json::parse(r#"{"b":1,"a":2}"#).unwrap();
    let built = build_tools_call(7, "echo", &args);
    let parsed = Json::parse(
        r#"{"jsonrpc":"2.0","id":7,"method":"tools/call","params":{"name":"echo","arguments":{"a":2,"b":1}}}"#,
    )
    .unwrap();
    assert_eq!(built, parsed);
}

#[test]
fn json_object_orders_keys_and_keeps_last() {
    let v = json_object(vec![
        member("zeta", json_str("1")),
        member("alpha", json_str("2")),
        member("zeta", json_str("3")),
        member("é", json_str("4")),
        member("Z", json_str("5")),
    ]);
    let Json::Object(members) = &v else { panic!("object expected") };
    let keys: Vec<&str> = members.iter().map(|(k, _)| k.as_str()).collect();
    assert_eq!(keys, vec!["Z", "alpha", "zeta", "é"]);
    assert_eq!(v.get("zeta").and_then(Json::as_str), Some("3"));
    assert_eq!(v, Json::parse(r#"{"zeta":"1","alpha":"2","zeta":"3","é":"4","Z":"5"}"#).unwrap());
}

#[test]
fn choose_from_envelopes_picks_id_then_first() {
    let a = Json::parse(r#"{"id":1,"result":"a"}"#).unwrap();
    let b = Json::parse(r#"{"id":2,"result":"b"}"#).unwrap();
    let cands = vec![None, Some(a.clone()), None, Some(b.clone())];
    assert_eq!(choose_from_envelopes(&cands, 2).unwrap(), b);
    assert_eq!(choose_from_envelopes(&cands, 9).unwrap(), a);
    assert_eq!(choose_from_envelopes(&vec![None, None], 1).unwrap_err(), ProtoError::NoEnvelope);
    assert_eq!(choose_from_envelopes(&Vec::new(), 1).unwrap_err(), ProtoError::NoEnvelope);
}
