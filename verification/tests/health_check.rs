use berth::health_check::{
    health_check_result, initialize_fields, parse_initialize_response, ProbeOutcome,
    INITIALIZE_REQUEST,
};
use berth::json::JsonValue;

#[test]
fn parse_valid_initialize_response() {
    let resp = r#"{"jsonrpc":"2.0","id":1,"result":{"protocolVersion":"2024-11-05","capabilities":{},"serverInfo":{"name":"test-server","version":"1.0"}}}"#;
    let (version, info) = parse_initialize_response(resp).unwrap();
    assert_eq!(version, "2024-11-05");
    assert_eq!(info, "test-server");
}

#[test]
fn initialize_response_missing_fields_read_unknown() {
    let (version, info) = parse_initialize_response(r#"  {"result":{"serverInfo":{"name":7}}}  "#).unwrap();
    assert_eq!(version, "unknown");
    assert_eq!(info, "unknown");
    assert_eq!(parse_initialize_response(r#"{"error":{"code":-1}}"#), None);
    assert_eq!(parse_initialize_response("not json"), None);
    assert_eq!(parse_initialize_response(""), None);
}

#[test]
fn initialize_fields_on_given_values() {
    let result = JsonValue::Object(vec![
        ("protocolVersion".to_string(), JsonValue::Str("v9".to_string())),
        (
            "serverInfo".to_string(),
            JsonValue::Object(vec![("name".to_string(), JsonValue::Str("srv".to_string()))]),
        ),
    ]);
    let reply = JsonValue::Object(vec![("result".to_string(), result)]);
    assert_eq!(
        initialize_fields(Some(reply)),
        Some(("v9".to_string(), "srv".to_string()))
    );
    assert_eq!(initialize_fields(Some(JsonValue::Null)), None);
    assert_eq!(initialize_fields(None), None);
}

#[test]
fn probe_outcomes_become_reports() {
    let ok = health_check_result(ProbeOutcome::Reply(
        r#"{"jsonrpc":"2.0","id":1,"result":{"protocolVersion":"2024-11-05","serverInfo":{"name":"s"}}}"#
            .to_string(),
    ));
    assert_eq!(ok.mcp_responsive, Some(true));
    assert_eq!(ok.protocol_version.as_deref(), Some("2024-11-05"));
    assert_eq!(ok.server_info.as_deref(), Some("s"));
    assert_eq!(ok.error, None);

    let timeout = health_check_result(ProbeOutcome::NoReply);
    assert_eq!(timeout.mcp_responsive, Some(false));
    assert_eq!(timeout.error.as_deref(), Some("timeout"));
    assert_eq!(timeout.protocol_version, None);

    let bad = health_check_result(ProbeOutcome::Reply("garbage".to_string()));
    assert_eq!(bad.mcp_responsive, Some(false));
    assert_eq!(bad.error.as_deref(), Some("invalid response"));

    let spawn = health_check_result(ProbeOutcome::SpawnFailed("No such file".to_string()));
    assert_eq!(spawn.mcp_responsive, Some(false));
    assert_eq!(spawn.error.as_deref(), Some("spawn failed: No such file"));
    assert_eq!(spawn.server_info, None);
}

#[test]
fn initialize_request_is_the_handshake() {
    let v: serde_json::Value = serde_json::from_str(INITIALIZE_REQUEST).unwrap();
    assert_eq!(v["method"], "initialize");
    assert_eq!(v["id"], 1);
    assert_eq!(v["params"]["protocolVersion"], "2024-11-05");
    assert_eq!(v["params"]["clientInfo"]["name"], "berth");
}
