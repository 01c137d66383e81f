use greentic_mcp_client::auth::{str_eq_ignore_ascii_case, McpAuth};

#[test]
fn default_is_authorization_bearer() {
    let (name, value) = McpAuth::bearer("tok-1").header();
    assert_eq!(name, "Authorization");
    assert_eq!(value, "Bearer tok-1");
}

#[test]
fn explicit_authorization_header_still_gets_bearer_prefix() {
    let auth = McpAuth {
        header_name: Some("authorization".into()),
        token: "tok-1".into(),
    };
    let (_, value) = auth.header();
    assert_eq!(value, "Bearer tok-1");
}

#[test]
fn custom_header_sends_raw_token() {
    let auth = McpAuth {
        header_name: Some("X-Api-Key".into()),
        token: "tok-1".into(),
    };
    let (name, value) = auth.header();
    assert_eq!(name, "X-Api-Key");
    assert_eq!(value, "tok-1");
}

#[test]
fn debug_redacts_token() {
    let auth = McpAuth::bearer("super-secret");
    let dbg = auth.redacted_debug();
    assert!(!dbg.contains("super-secret"));
    assert!(dbg.contains("<redacted>"));
}

#[test]
fn redacted_debug_matches_debug_struct_layout() {
    let auth = McpAuth {
        header_name: Some("X-Api-Key".into()),
        token: "tok-1".into(),
    };
    assert_eq!(
        auth.redacted_debug(),
        "McpAuth { header_name: Some(\"X-Api-Key\"), token: \"<redacted>\" }"
    );
    assert_eq!(
        McpAuth::bearer("t").redacted_debug(),
        "McpAuth { header_name: None, token: \"<redacted>\" }"
    );
}

#[test]
fn redacted_debug_ignores_token() {
    let a = McpAuth { header_name: Some("k".into()), token: "one".into() };
    let b = McpAuth { header_name: Some("k".into()), token: "two".into() };
    assert_eq!(a.redacted_debug(), b.redacted_debug());
}

#[test]
fn authorization_name_in_any_case_gets_bearer_prefix() {
    let auth = McpAuth { header_name: Some("AUTHORIZATION".into()), token: "x".into() };
    assert_eq!(auth.header(), ("AUTHORIZATION".to_string(), "Bearer x".to_string()));
    let auth = McpAuth { header_name: Some("Authorisation".into()), token: "x".into() };
    assert_eq!(auth.header(), ("Authorisation".to_string(), "x".to_string()));
}

#[test]
fn ignore_ascii_case_matches_std() {
    for (a, b) in [("abc", "ABC"), ("abc", "abd"), ("É", "é"), ("", ""), ("a", "")] {
        assert_eq!(str_eq_ignore_ascii_case(a, b), a.eq_ignore_ascii_case(b));
    }
}
