use berth::json::JsonValue;
use berth::proxy_filter::{
    build_denial_response, FilterDecision, FilterResult, ProxyAction, ProxyFilter, ProxySession,
};

fn names(list: &[&str]) -> Vec<String> {
    list.iter().map(|s| s.to_string()).collect()
}

#[test]
fn passthrough_when_no_restrictions() {
    let filter = ProxyFilter::new(&[]);
    assert!(filter.allows_all());
    let msg = r#"{"jsonrpc":"2.0","method":"tools/call","id":1,"params":{"name":"anything"}}"#;
    match filter.filter_message(msg) {
        FilterResult::PassThrough(_) => {}
        _ => panic!("expected PassThrough"),
    }
}

#[test]
fn wildcard_allows_all() {
    let filter = ProxyFilter::new(&["*".to_string()]);
    assert!(filter.allows_all());
}

#[test]
fn allowed_tool_call_forwarded() {
    let filter = ProxyFilter::new(&["read_file".to_string(), "write_file".to_string()]);
    let msg = r#"{"jsonrpc":"2.0","method":"tools/call","id":1,"params":{"name":"read_file"}}"#;
    match filter.filter_message(msg) {
        FilterResult::Forward(_) => {}
        _ => panic!("expected Forward"),
    }
}

#[test]
fn denied_tool_call_returns_error() {
    let filter = ProxyFilter::new(&["read_file".to_string()]);
    let msg = r#"{"jsonrpc":"2.0","method":"tools/call","id":42,"params":{"name":"exec_cmd"}}"#;
    match filter.filter_message(msg) {
        FilterResult::Deny(err) => {
            let v: serde_json::Value = serde_json::from_str(&err).unwrap();
            assert_eq!(v["id"], 42);
            assert_eq!(v["error"]["code"], -32600);
            assert!(v["error"]["message"].as_str().unwrap().contains("exec_cmd"));
        }
        _ => panic!("expected Deny"),
    }
}

#[test]
fn non_tool_call_methods_pass_through() {
    let filter = ProxyFilter::new(&["read_file".to_string()]);
    let msg = r#"{"jsonrpc":"2.0","method":"initialize","id":1,"params":{}}"#;
    match filter.filter_message(msg) {
        FilterResult::Forward(_) => {}
        _ => panic!("expected Forward for non-tool-call method"),
    }
}

#[test]
fn wildcard_among_names_allows_all() {
    let filter = ProxyFilter::new(&names(&["read_file", "*"]));
    assert!(filter.allows_all());
    let restricted = ProxyFilter::new(&names(&["read_file", "read_file"]));
    assert!(!restricted.allows_all());
}

#[test]
fn forwarded_lines_are_unchanged() {
    let filter = ProxyFilter::new(&names(&["read_file"]));
    let msg = "  {\"jsonrpc\":\"2.0\",\"method\":\"tools/call\",\"id\":1,\"params\":{\"name\":\"read_file\"}}\t";
    match filter.filter_message(msg) {
        FilterResult::Forward(m) => assert_eq!(m, msg),
        _ => panic!("expected Forward"),
    }
    match filter.filter_message("not json at all") {
        FilterResult::PassThrough(m) => assert_eq!(m, "not json at all"),
        _ => panic!("expected PassThrough"),
    }
    match filter.filter_message(r#"{"jsonrpc":"2.0","result":{}}"#) {
        FilterResult::PassThrough(m) => assert_eq!(m, r#"{"jsonrpc":"2.0","result":{}}"#),
        _ => panic!("expected PassThrough for a message without method"),
    }
    match filter.filter_message(r#"{"method":7}"#) {
        FilterResult::PassThrough(_) => {}
        _ => panic!("expected PassThrough for a non-string method"),
    }
}

#[test]
fn denial_text_is_exact() {
    let filter = ProxyFilter::new(&names(&["read_file"]));
    let msg = r#"{"jsonrpc":"2.0","method":"tools/call","id":"req-7","params":{"name":"rm"}}"#;
    match filter.filter_message(msg) {
        FilterResult::Deny(err) => assert_eq!(
            err,
            r#"{"error":{"code":-32600,"message":"Tool 'rm' is not allowed by exec permissions"},"id":"req-7","jsonrpc":"2.0"}"#
        ),
        _ => panic!("expected Deny"),
    }
}

#[test]
fn tool_call_without_name_is_denied_with_null_id() {
    let filter = ProxyFilter::new(&names(&["read_file"]));
    match filter.filter_message(r#"{"method":"tools/call"}"#) {
        FilterResult::Deny(err) => {
            let v: serde_json::Value = serde_json::from_str(&err).unwrap();
            assert!(v["id"].is_null());
            assert_eq!(v["error"]["message"], "Tool '' is not allowed by exec permissions");
        }
        _ => panic!("expected Deny"),
    }
}

#[test]
fn decide_on_given_values() {
    let filter = ProxyFilter::new(&names(&["a"]));
    let call = |tool: &str, id: i64| {
        JsonValue::Object(vec![
            ("method".to_string(), JsonValue::Str("tools/call".to_string())),
            ("id".to_string(), JsonValue::Number(serde_json::Number::from(id))),
            (
                "params".to_string(),
                JsonValue::Object(vec![("name".to_string(), JsonValue::Str(tool.to_string()))]),
            ),
        ])
    };
    assert!(matches!(filter.decide(Some(call("a", 1))), FilterDecision::Forward));
    match filter.decide(Some(call("b", 5))) {
        FilterDecision::Deny { id, tool } => {
            assert_eq!(tool, "b");
            match id {
                JsonValue::Number(n) => assert_eq!(n.as_i64(), Some(5)),
                _ => panic!("expected the request id"),
            }
        }
        _ => panic!("expected Deny"),
    }
    assert!(matches!(filter.decide(None), FilterDecision::PassThrough));
    assert!(matches!(filter.decide(Some(JsonValue::Null)), FilterDecision::PassThrough));
    let other = JsonValue::Object(vec![(
        "method".to_string(),
        JsonValue::Str("tools/list".to_string()),
    )]);
    assert!(matches!(filter.decide(Some(other)), FilterDecision::Forward));
    let open = ProxyFilter::new(&[]);
    assert!(matches!(open.decide(Some(call("b", 1))), FilterDecision::PassThrough));
}

#[test]
fn build_denial_response_names_tool() {
    let text = build_denial_response(JsonValue::Number(serde_json::Number::from(3)), "x");
    assert_eq!(
        text,
        r#"{"error":{"code":-32600,"message":"Tool 'x' is not allowed by exec permissions"},"id":3,"jsonrpc":"2.0"}"#
    );
}

#[test]
fn route_client_line_records_denied_tools() {
    let filter = ProxyFilter::new(&names(&["read_file"]));
    let mut denied = Vec::new();
    let ok = r#"{"method":"tools/call","id":1,"params":{"name":"read_file"}}"#;
    match filter.route_client_line(ok, &mut denied) {
        ProxyAction::ToServer(m) => assert_eq!(m, ok),
        _ => panic!("expected ToServer"),
    }
    assert!(denied.is_empty());
    let bad = r#"{"method":"tools/call","id":2,"params":{"name":"exec"}}"#;
    match filter.route_client_line(bad, &mut denied) {
        ProxyAction::ToClient(e) => assert!(e.contains("exec")),
        _ => panic!("expected ToClient"),
    }
    assert_eq!(denied, vec!["exec".to_string()]);
    let nameless = r#"{"method":"tools/call","id":3}"#;
    match filter.route_client_line(nameless, &mut denied) {
        ProxyAction::ToClient(_) => {}
        _ => panic!("expected ToClient"),
    }
    assert_eq!(denied, vec!["exec".to_string()]);
}

#[test]
fn denial_value_on_given_values() {
    let v = berth::proxy_filter::denial_value(JsonValue::Str("abc".to_string()), "t");
    match v {
        JsonValue::Object(members) => {
            assert_eq!(members.len(), 3);
            assert_eq!(members[0].0, "jsonrpc");
            assert!(matches!(&members[0].1, JsonValue::Str(s) if s == "2.0"));
            assert_eq!(members[1].0, "id");
            assert!(matches!(&members[1].1, JsonValue::Str(s) if s == "abc"));
            assert_eq!(members[2].0, "error");
            match &members[2].1 {
                JsonValue::Object(error) => {
                    assert!(matches!(&error[0].1, JsonValue::Number(n) if n.as_i64() == Some(-32600)));
                    assert!(matches!(&error[1].1, JsonValue::Str(s)
                        if s == "Tool 't' is not allowed by exec permissions"));
                }
                _ => panic!("expected the error object"),
            }
        }
        _ => panic!("expected an object"),
    }
}

#[test]
fn session_routes_and_records_in_order() {
    let filter = ProxyFilter::new(&names(&["read_file"]));
    let mut session = ProxySession::new(&filter);
    let lines = [
        r#"{"method":"initialize","id":1}"#,
        r#"{"method":"tools/call","id":2,"params":{"name":"rm"}}"#,
        "plain text",
        r#"{"method":"tools/call","id":3,"params":{"name":"read_file"}}"#,
        r#"{"method":"tools/call","id":4}"#,
        r#"{"method":"tools/call","id":5,"params":{"name":"curl"}}"#,
    ];
    let mut to_server = Vec::new();
    let mut to_client = Vec::new();
    for line in lines {
        match session.on_client_line(line) {
            ProxyAction::ToServer(m) => to_server.push(m),
            ProxyAction::ToClient(e) => to_client.push(e),
        }
    }
    assert_eq!(to_server, vec![lines[0], lines[2], lines[3]]);
    assert_eq!(to_client.len(), 3);
    assert!(to_client[0].contains("'rm'"));
    assert!(to_client[1].contains("Tool ''"));
    assert!(to_client[2].contains("'curl'"));
    assert_eq!(session.into_denied_tools(), vec!["rm".to_string(), "curl".to_string()]);
}
