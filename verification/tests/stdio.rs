use mcp_sdk::json::Json;
use mcp_sdk::jsonrpc::{request, success, RequestId};
use mcp_sdk::stdio::{
    classify_line, encode_raw_line, encode_request_line, encode_success_line, encode_value_line,
    is_server_request_id, next_server_request_id, server_request, LineBuffer, PendingRequests, StdioLineClass,
    DEFAULT_REQUEST_TIMEOUT_MS, SERVER_REQUEST_ID_PREFIX,
};

fn from_value(v: &serde_json::Value) -> Json {
    match v {
        serde_json::Value::Null => Json::Null,
        serde_json::Value::Bool(b) => Json::Bool(*b),
        serde_json::Value::Number(n) => match n.as_i64() {
            Some(i) => Json::Int(i128::from(i)),
            None => match n.as_u64() {
                Some(u) => Json::Int(i128::from(u)),
                None => Json::Float(n.to_string()),
            },
        },
        serde_json::Value::String(s) => Json::Str(s.clone()),
        serde_json::Value::Array(a) => Json::Array(a.iter().map(from_value).collect()),
        serde_json::Value::Object(o) => Json::Object(o.iter().map(|(k, v)| (k.clone(), from_value(v))).collect()),
    }
}

fn classify(line: &str) -> StdioLineClass {
    classify_line(line)
}

fn obj(members: Vec<(&str, Json)>) -> Json {
    Json::Object(members.into_iter().map(|(k, v)| (k.to_string(), v)).collect())
}

fn field<'a>(j: &'a Json, key: &str) -> &'a Json {
    j.get(key).expect("member")
}

fn text(j: &Json) -> Option<&str> {
    j.as_str().map(|s| s.as_str())
}

#[test]
fn line_buffer_splits_complete_lines() {
    let mut buf = LineBuffer::new();
    assert!(buf.push_str("{\"a\":1}\n{\"b\":2}\n").len() == 2);
    assert_eq!(buf.remainder(), "");
    let partial = buf.push_str("{\"c\":");
    assert!(partial.is_empty());
    let done = buf.push_str("3}\n");
    assert_eq!(done, vec![r#"{"c":3}"#]);
}

#[test]
fn line_buffer_skips_empty_lines() {
    let mut buf = LineBuffer::new();
    let lines = buf.push_str("\n  \n{\"x\":1}\n");
    assert_eq!(lines, vec![r#"{"x":1}"#]);
}

#[test]
fn encode_and_classify_client_message() {
    let req = request(RequestId::Number(1), "initialize", Some(Json::empty_object()));
    let line = encode_request_line(req);
    assert!(line.ends_with('\n'));
    match classify(line.trim()) {
        StdioLineClass::ClientMessage(s) => {
            assert!(s.contains("initialize"));
        }
        _ => panic!("expected client message"),
    }
}

#[test]
fn classify_server_response() {
    let ok = r#"{"jsonrpc":"2.0","id":"server-1","result":{"ok":true}}"#;
    match classify(ok) {
        StdioLineClass::ServerResponse { id, result, error_message } => {
            assert_eq!(id, "server-1");
            let result = result.expect("result");
            assert_eq!(field(&result, "ok").as_bool(), Some(true));
            assert!(error_message.is_none());
        }
        _ => panic!("expected server response"),
    }
    let err = r#"{"jsonrpc":"2.0","id":"server-2","error":{"code":-1,"message":"nope"}}"#;
    match classify(err) {
        StdioLineClass::ServerResponse { id, result, error_message } => {
            assert_eq!(id, "server-2");
            assert!(result.is_none());
            assert_eq!(error_message.as_deref(), Some("nope"));
        }
        _ => panic!("expected error response"),
    }
}

#[test]
fn server_request_id_helpers() {
    assert_eq!(next_server_request_id(1), "server-1");
    assert!(is_server_request_id("server-42"));
    assert!(!is_server_request_id("client-1"));
    assert!(!is_server_request_id("server-"));
    assert!(!is_server_request_id("server-x"));
}

#[test]
fn pending_requests_allocate_and_take() {
    let mut p = PendingRequests::new();
    let id1 = p.allocate();
    let id2 = p.allocate();
    assert_eq!(id1, "server-1");
    assert_eq!(id2, "server-2");
    assert_eq!(p.len(), 2);
    assert!(p.take(&id1));
    assert!(!p.take(&id1));
    assert!(p.is_pending(&id2));
    p.clear();
    assert!(p.is_empty());
}

#[test]
fn server_request_shape() {
    let r = server_request("server-1", "sampling/createMessage", Some(obj(vec![("maxTokens", Json::Int(1))])));
    assert_eq!(text(field(&r, "jsonrpc")), Some("2.0"));
    assert_eq!(text(field(&r, "id")), Some("server-1"));
    assert_eq!(text(field(&r, "method")), Some("sampling/createMessage"));
    assert!(matches!(field(field(&r, "params"), "maxTokens"), Json::Int(1)));
}

#[test]
fn encode_raw_and_value() {
    assert_eq!(encode_raw_line(r#"{"a":1}"#), "{\"a\":1}\n");
    assert_eq!(encode_value_line(&obj(vec![("b", Json::Int(2))])), "{\"b\":2}\n");
    let s = success(RequestId::Number(1), Json::empty_object());
    assert!(encode_success_line(s).contains("result"));
    assert_eq!(DEFAULT_REQUEST_TIMEOUT_MS, 30_000);
}

#[test]
fn wave4_product_stdio_invalid_lines() {
    assert!(matches!(classify(""), StdioLineClass::Invalid));
    assert!(matches!(classify("not-json"), StdioLineClass::Invalid));
    let req = r#"{"jsonrpc":"2.0","id":"server-9","method":"ping"}"#;
    assert!(matches!(classify(req), StdioLineClass::ClientMessage(_)));
}

#[test]
fn encode_request_line_is_compact_json() {
    let req = request(RequestId::String("a".to_string()), "ping", None);
    assert_eq!(encode_request_line(req), "{\"jsonrpc\":\"2.0\",\"id\":\"a\",\"method\":\"ping\"}\n");
    assert_eq!(encode_raw_line("{}\n\n"), "{}\n");
    assert_eq!(SERVER_REQUEST_ID_PREFIX, "server-");
}

#[test]
fn error_without_message_reads_request_failed() {
    match classify(r#"{"id":"server-3","error":{"code":1}}"#) {
        StdioLineClass::ServerResponse { error_message, result, .. } => {
            assert_eq!(error_message.as_deref(), Some("Request failed"));
            assert!(result.is_none());
        }
        _ => panic!("expected server response"),
    }
    // A client id is never a server response, whatever it carries.
    assert!(matches!(classify(r#"{"id":"c-1","result":1}"#), StdioLineClass::ClientMessage(_)));
    assert!(matches!(classify(r#"  {"id":7,"result":1}  "#), StdioLineClass::ClientMessage(t) if t == r#"{"id":7,"result":1}"#));
}

#[test]
fn line_buffer_keeps_partial_and_decodes_bytes() {
    let mut buf = LineBuffer::new();
    assert!(buf.push_str("ab").is_empty());
    assert_eq!(buf.remainder(), "ab");
    assert_eq!(buf.push_bytes(b"c\nd"), vec!["abc"]);
    assert_eq!(buf.remainder(), "d");
    // Invalid UTF-8 is replaced, not dropped.
    assert_eq!(buf.push_bytes(&[0xff, b'\n']), vec!["d\u{fffd}"]);
    buf.clear();
    assert_eq!(buf.remainder(), "");
}

#[test]
fn pending_ids_are_fresh() {
    let mut p = PendingRequests::default();
    let a = p.allocate();
    let b = p.allocate();
    assert_ne!(a, b);
    assert!(p.take(&a));
    assert!(!p.is_pending(&a));
    assert!(p.is_pending(&b));
}

#[test]
fn remainder_is_the_text_after_the_last_newline() {
    let mut buf = LineBuffer::new();
    let lines = buf.push_str("a\n b \n\npart");
    assert_eq!(lines, vec!["a".to_string(), "b".to_string()]);
    assert_eq!(buf.remainder(), "part");
    let lines = buf.push_str("ial\nnext");
    assert_eq!(lines, vec!["partial".to_string()]);
    assert_eq!(buf.remainder(), "next");
}

#[test]
fn allocation_run_counts_up_across_answers() {
    let mut p = PendingRequests::new();
    let a = p.allocate();
    assert!(p.take(&a));
    let b = p.allocate();
    p.clear();
    let c = p.allocate();
    assert_eq!((a.as_str(), b.as_str(), c.as_str()), ("server-1", "server-2", "server-3"));
}
