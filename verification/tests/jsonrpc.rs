use mcp_sdk::json::Json;
use mcp_sdk::jsonrpc::{
    error_response, is_error, is_notification, is_request, is_response, is_success, message_to_json,
    method_not_found, notification, parse_error, parse_message, read_message, request, success, JsonRpcMessage,
    ParseResult, RequestId, INTERNAL_ERROR, INVALID_PARAMS, INVALID_REQUEST, JSONRPC_VERSION, METHOD_NOT_FOUND,
    PARSE_ERROR,
};

fn from_value(v: &serde_json::Value) -> Json {
    match v {
        serde_json::Value::Null => Json::Null,
        serde_json::Value::Bool(b) => Json::Bool(*b),
        serde_json::Value::Number(n) => match n.as_i64() {
            Some(i) => Json::Int(i128::from(i)),
            None => match n.as_u64() {
                Some(u) => Json::Int(i128::from(u)),
                None => Json::Float(n.to_string()),
            },
        },
        serde_json::Value::String(s) => Json::Str(s.clone()),
        serde_json::Value::Array(a) => Json::Array(a.iter().map(from_value).collect()),
        serde_json::Value::Object(o) => Json::Object(o.iter().map(|(k, v)| (k.clone(), from_value(v))).collect()),
    }
}

fn parse(text: &str) -> ParseResult {
    parse_message(text)
}

#[test]
fn parse_request() {
    match parse(r#"{"jsonrpc":"2.0","id":1,"method":"ping"}"#) {
        ParseResult::Message(msg) => {
            assert!(is_request(&msg));
            assert!(!is_notification(&msg));
        }
        ParseResult::Failure(e) => panic!("{e}"),
    }
}

#[test]
fn parse_notification() {
    match parse(r#"{"jsonrpc":"2.0","method":"notify"}"#) {
        ParseResult::Message(msg) => assert!(is_notification(&msg)),
        ParseResult::Failure(e) => panic!("{e}"),
    }
}

#[test]
fn parse_success() {
    match parse(r#"{"jsonrpc":"2.0","id":"a","result":{"ok":true}}"#) {
        ParseResult::Message(msg) => {
            assert!(is_response(&msg));
            assert!(is_success(&msg));
        }
        ParseResult::Failure(e) => panic!("{e}"),
    }
}

#[test]
fn parse_error_response() {
    match parse(r#"{"jsonrpc":"2.0","id":null,"error":{"code":-32600,"message":"bad"}}"#) {
        ParseResult::Message(msg) => assert!(is_error(&msg)),
        ParseResult::Failure(e) => panic!("{e}"),
    }
}

#[test]
fn reject_bad_version() {
    match parse(r#"{"jsonrpc":"1.0","id":1,"method":"x"}"#) {
        ParseResult::Failure(e) => assert!(e.contains("Invalid jsonrpc version")),
        ParseResult::Message(_) => panic!("expected err"),
    }
}

#[test]
fn reject_non_object() {
    match parse("[]") {
        ParseResult::Failure(e) => assert!(e.contains("object")),
        ParseResult::Message(_) => panic!("expected err"),
    }
}

#[test]
fn constructors_roundtrip() {
    let req = request(RequestId::Number(7), "tools/list", Some(Json::empty_object()));
    let msg = JsonRpcMessage::Request(req);
    let s = mcp_sdk::jsonrpc::stringify(&msg);
    match parse(&s) {
        ParseResult::Message(m) => assert!(is_request(&m)),
        ParseResult::Failure(e) => panic!("{e}"),
    }
}

#[test]
fn error_codes_match_spec() {
    assert_eq!(PARSE_ERROR, -32700);
    assert_eq!(INVALID_REQUEST, -32600);
    assert_eq!(METHOD_NOT_FOUND, -32601);
    assert_eq!(INVALID_PARAMS, -32602);
    assert_eq!(INTERNAL_ERROR, -32603);
}

#[test]
fn bulk_parse_rejects_array_and_missing_fields() {
    match parse("[]") {
        ParseResult::Failure(e) => assert!(e.to_lowercase().contains("object") || e.contains("object") || !e.is_empty()),
        ParseResult::Message(_) => panic!("expected err"),
    }
    match parse(r#"{"jsonrpc":"2.0"}"#) {
        ParseResult::Failure(_) => {}
        ParseResult::Message(_) => panic!("ambiguous message should fail"),
    }
    let req = request(RequestId::Number(7), "tools/list", Some(Json::empty_object()));
    let msg = JsonRpcMessage::Request(req);
    let s = mcp_sdk::jsonrpc::stringify(&msg);
    assert!(s.contains("tools/list"));
    assert!(is_request(&msg));
    assert!(!is_response(&msg));
}

#[test]
fn bulk_notification_and_error_constructors() {
    let n = notification("notifications/initialized", None);
    let msg = JsonRpcMessage::Notification(n);
    assert!(is_notification(&msg));
    let err = error_response(Some(RequestId::Number(1)), METHOD_NOT_FOUND, "nope", None);
    let msg = JsonRpcMessage::Error(err);
    assert!(is_error(&msg));
    assert!(!is_success(&msg));
}

#[test]
fn stringify_is_compact_in_declared_order() {
    let msg = JsonRpcMessage::Success(success(RequestId::String("x".into()), Json::Bool(true)));
    assert_eq!(mcp_sdk::jsonrpc::stringify(&msg), r#"{"jsonrpc":"2.0","id":"x","result":true}"#);
    let err = JsonRpcMessage::Error(error_response(None, -1, "a\"b", None));
    assert_eq!(mcp_sdk::jsonrpc::stringify(&err), r#"{"jsonrpc":"2.0","id":null,"error":{"code":-1,"message":"a\"b"}}"#);
    assert_eq!(JSONRPC_VERSION, "2.0");
}

#[test]
fn stringify_writes_values_with_sorted_keys() {
    let data = Json::Object(vec![("z".to_string(), Json::Int(1)), ("a".to_string(), Json::Int(2))]);
    let err = JsonRpcMessage::Error(error_response(Some(RequestId::Number(1)), -32601, "nope", Some(data)));
    assert_eq!(
        mcp_sdk::jsonrpc::stringify(&err),
        r#"{"jsonrpc":"2.0","id":1,"error":{"code":-32601,"message":"nope","data":{"a":2,"z":1}}}"#
    );
    let params = Json::Object(vec![
        ("ab".to_string(), Json::Int(1)),
        ("a".to_string(), Json::Int(2)),
        ("B".to_string(), Json::Int(3)),
    ]);
    let req = JsonRpcMessage::Request(request(RequestId::Number(7), "m", Some(params)));
    assert_eq!(
        mcp_sdk::jsonrpc::stringify(&req),
        r#"{"jsonrpc":"2.0","id":7,"method":"m","params":{"B":3,"a":2,"ab":1}}"#
    );
}

#[test]
fn parse_failures_carry_their_reason() {
    match parse("{") {
        ParseResult::Failure(e) => assert!(e.starts_with("JSON parse error: ")),
        ParseResult::Message(_) => panic!("expected err"),
    }
    match parse(r#"{"id":1,"method":"x"}"#) {
        ParseResult::Failure(e) => assert_eq!(e, "Invalid jsonrpc version: null"),
        ParseResult::Message(_) => panic!("expected err"),
    }
    // A boolean id is no request id: the object reads as a notification.
    match parse(r#"{"jsonrpc":"2.0","id":true,"method":"x"}"#) {
        ParseResult::Message(m) => assert!(is_notification(&m)),
        ParseResult::Failure(e) => panic!("{e}"),
    }
    match parse(r#"{"jsonrpc":"2.0","id":1}"#) {
        ParseResult::Failure(e) => assert!(e.starts_with("JSON parse error: ")),
        ParseResult::Message(_) => panic!("expected err"),
    }
}

#[test]
fn parsed_request_keeps_fields() {
    match parse(r#"{"jsonrpc":"2.0","id":"r1","method":"tools/call","params":{"name":"t"}}"#) {
        ParseResult::Message(JsonRpcMessage::Request(r)) => {
            assert_eq!(r.method, "tools/call");
            assert!(matches!(r.id, RequestId::String(ref s) if s == "r1"));
            assert!(r.params.is_some());
        }
        _ => panic!("request expected"),
    }
}

#[test]
fn method_not_found_and_parse_error_bodies() {
    let e = method_not_found(RequestId::Number(3), "foo/bar");
    assert_eq!(e.error.code, METHOD_NOT_FOUND);
    assert_eq!(e.error.message, "Method not found: foo/bar");
    let p = parse_error(None, "Parse error: x");
    assert_eq!(p.error.code, PARSE_ERROR);
    assert!(p.id.is_none());
    let j = message_to_json(&JsonRpcMessage::Error(p));
    assert!(j.get("id").map(|v| v.is_null()).unwrap_or(false));
}

#[test]
fn message_value_reads_back() {
    let msgs = vec![
        JsonRpcMessage::Request(request(RequestId::Number(-5), "tools/call", Some(Json::Array(vec![])))),
        JsonRpcMessage::Notification(notification("notifications/progress", None)),
        JsonRpcMessage::Success(success(RequestId::String("s".into()), Json::Null)),
        JsonRpcMessage::Error(error_response(None, -32000, "m", Some(Json::Int(1)))),
        JsonRpcMessage::Error(error_response(Some(RequestId::Number(9)), 1, "m", None)),
    ];
    for m in &msgs {
        let v = message_to_json(m);
        match read_message(&Ok(v)) {
            ParseResult::Message(back) => {
                assert_eq!(mcp_sdk::jsonrpc::stringify(&back), mcp_sdk::jsonrpc::stringify(m));
                assert_eq!(is_request(&back), is_request(m));
                assert_eq!(is_notification(&back), is_notification(m));
                assert_eq!(is_success(&back), is_success(m));
                assert_eq!(is_error(&back), is_error(m));
            }
            ParseResult::Failure(e) => panic!("{e}"),
        }
    }
    // A `null` params member reads back as no params.
    let with_null = JsonRpcMessage::Request(request(RequestId::Number(1), "x", Some(Json::Null)));
    match read_message(&Ok(message_to_json(&with_null))) {
        ParseResult::Message(JsonRpcMessage::Request(r)) => assert!(r.params.is_none()),
        _ => panic!("request expected"),
    }
}
