use mcp_sdk::app::{AppConfig, AppStateMeta};
use mcp_sdk::http_auth::{is_auth_enabled, AuthOptions};
use mcp_sdk::json::Json;
use mcp_sdk::session_guard::{looks_like_session_id, SessionStore, MCP_SESSION_ID_HEADER};
use mcp_sdk::streamable_http::{
    accepts_sse, classify_route, cors_response_headers, format_sse_message_event, handle_request,
    is_jsonrpc_response_value, normalize_base_path, HttpConfig, IngressRequest, RouteClass, TransportResponse,
    DEFAULT_BASE_PATH, DEFAULT_PORT,
};
use mcp_sdk::textmap::TextMap;

fn contract_state() -> AppStateMeta {
    AppConfig::new().with_name("contract-fixture-server").with_version("0.0.0-contract").build()
}

fn headers(pairs: &[(&str, &str)]) -> TextMap<String> {
    let mut m = TextMap::new();
    for (k, v) in pairs {
        m.insert((*k).to_string(), (*v).to_string());
    }
    m
}

fn call(
    cfg: &HttpConfig,
    store: &mut SessionStore,
    state: &AppStateMeta,
    method: &str,
    path: &str,
    headers: &TextMap<String>,
    body: Option<&str>,
) -> TransportResponse {
    handle_request(cfg, store, state, &IngressRequest { method, path, headers, body, now_ms: 0 })
}

fn field<'a>(j: &'a Json, key: &str) -> &'a Json {
    j.get(key).expect("member")
}

fn text(j: &Json) -> Option<&str> {
    j.as_str().map(|s| s.as_str())
}

fn int_value(j: &Json) -> Option<i128> {
    match j {
        Json::Int(n) => Some(*n),
        _ => None,
    }
}

const INIT_BODY: &str = r#"{"jsonrpc":"2.0","id":1,"method":"initialize","params":{"protocolVersion":"2025-03-26","capabilities":{},"clientInfo":{"name":"c","version":"1"}}}"#;

#[test]
fn normalize_base_path_rules() {
    assert_eq!(normalize_base_path("mcp"), "/mcp");
    assert_eq!(normalize_base_path("/mcp/"), "/mcp");
    assert_eq!(normalize_base_path(""), "/mcp");
}

#[test]
fn classify_routes() {
    let cfg = HttpConfig::default();
    assert_eq!(classify_route("GET", "/mcp/health", &cfg), RouteClass::Health);
    assert_eq!(classify_route("POST", "/mcp", &cfg), RouteClass::JsonRpc);
    assert_eq!(classify_route("OPTIONS", "/mcp", &cfg), RouteClass::Options);
    assert_eq!(classify_route("GET", "/mcp", &cfg), RouteClass::MethodNotAllowed);
    assert_eq!(classify_route("POST", "/other", &cfg), RouteClass::NotFound);
}

#[test]
fn health_open_with_auth() {
    let state = contract_state();
    let mut store = SessionStore::new();
    let cfg = HttpConfig::default().with_api_key("secret");
    let empty = TextMap::new();
    let res = call(&cfg, &mut store, &state, "GET", "/mcp/health", &empty, None);
    assert_eq!(res.status, 200);
    let body = res.body.as_ref().unwrap();
    assert_eq!(text(field(body, "status")), Some("ok"));
    assert_eq!(text(field(body, "server")), Some("contract-fixture-server"));
}

#[test]
fn auth_unauthorized_missing_and_wrong() {
    let state = contract_state();
    let mut store = SessionStore::new();
    let cfg = HttpConfig::default().with_api_key("contract-test-key");
    let h = headers(&[("Content-Type", "application/json")]);
    let missing = call(&cfg, &mut store, &state, "POST", "/mcp", &h, Some(INIT_BODY));
    assert_eq!(missing.status, 401);
    assert_eq!(int_value(field(field(missing.body.as_ref().unwrap(), "error"), "code")), Some(-32001));
    assert!(missing.header("WWW-Authenticate").unwrap().contains("Bearer"));

    let h2 = headers(&[("Content-Type", "application/json"), ("X-API-Key", "wrong-key")]);
    let wrong = call(&cfg, &mut store, &state, "POST", "/mcp", &h2, Some(INIT_BODY));
    assert_eq!(wrong.status, 401);
}

#[test]
fn auth_success_and_initialize_session() {
    let state = contract_state();
    let mut store = SessionStore::new();
    let cfg = HttpConfig::default().with_api_key("contract-test-key");
    let h = headers(&[("Content-Type", "application/json"), ("X-API-Key", "contract-test-key")]);
    let res = call(&cfg, &mut store, &state, "POST", "/mcp", &h, Some(INIT_BODY));
    assert_eq!(res.status, 200);
    let result = field(res.body.as_ref().unwrap(), "result");
    assert_eq!(text(field(result, "protocolVersion")), Some("2025-03-26"));
    assert!(res.header(MCP_SESSION_ID_HEADER).is_some());
    assert_eq!(store.len(), 1);
}

#[test]
fn initialize_json_full_shape() {
    let state = contract_state();
    let mut store = SessionStore::new();
    let cfg = HttpConfig::default();
    let body = r#"{"jsonrpc":"2.0","id":1,"method":"initialize","params":{"protocolVersion":"2025-03-26","capabilities":{},"clientInfo":{"name":"contract-test","version":"1.0.0"}}}"#;
    let h = headers(&[("Content-Type", "application/json"), ("Accept", "application/json")]);
    let res = call(&cfg, &mut store, &state, "POST", "/mcp", &h, Some(body));
    assert_eq!(res.status, 200);
    let b = res.body.as_ref().unwrap();
    assert_eq!(text(field(b, "jsonrpc")), Some("2.0"));
    assert_eq!(int_value(field(b, "id")), Some(1));
    let result = field(b, "result");
    assert_eq!(text(field(result, "protocolVersion")), Some("2025-03-26"));
    let info = field(result, "serverInfo");
    assert_eq!(text(field(info, "name")), Some("contract-fixture-server"));
    assert_eq!(text(field(info, "version")), Some("0.0.0-contract"));
    let sid = res.header(MCP_SESSION_ID_HEADER).unwrap();
    assert!(looks_like_session_id(sid));
}

#[test]
fn session_not_found() {
    let state = contract_state();
    let mut store = SessionStore::new();
    let cfg = HttpConfig::default();
    let h = headers(&[("Content-Type", "application/json"), ("Mcp-Session-Id", "00000000-0000-4000-8000-000000000000")]);
    let res = call(&cfg, &mut store, &state, "POST", "/mcp", &h, Some(INIT_BODY));
    assert_eq!(res.status, 404);
    assert_eq!(text(field(res.body.as_ref().unwrap(), "error")), Some("Session not found"));
}

#[test]
fn parse_error_400() {
    let state = contract_state();
    let mut store = SessionStore::new();
    let cfg = HttpConfig::default();
    let h = headers(&[("Content-Type", "application/json")]);
    let res = call(&cfg, &mut store, &state, "POST", "/mcp", &h, Some("not-json"));
    assert_eq!(res.status, 400);
    let error = field(res.body.as_ref().unwrap(), "error");
    let msg = text(field(error, "message")).unwrap_or("");
    assert!(msg.to_ascii_lowercase().contains("parse error"), "msg={msg}");
    assert_eq!(int_value(field(error, "code")), Some(-32700));
}

#[test]
fn accepts_sse_and_format() {
    assert!(accepts_sse(Some("application/json, text/event-stream")));
    assert!(!accepts_sse(Some("application/json")));
    let ev = format_sse_message_event(r#"{"a":1}"#);
    assert!(ev.starts_with("event: message\n"));
    assert!(ev.contains("data: {\"a\":1}"));
    assert!(ev.ends_with("\n\n"));
}

#[test]
fn is_jsonrpc_response_detection() {
    let parse = |s: &str| mcp_sdk::json::parse_json_text(s).unwrap();
    assert!(is_jsonrpc_response_value(&parse(r#"{"jsonrpc":"2.0","id":"server-1","result":{}}"#)));
    assert!(is_jsonrpc_response_value(&parse(r#"{"jsonrpc":"2.0","id":1,"error":{"code":-1,"message":"x"}}"#)));
    assert!(!is_jsonrpc_response_value(&parse(r#"{"jsonrpc":"2.0","id":1,"method":"initialize"}"#)));
}

#[test]
fn bidirectional_pending_ack_202() {
    let state = contract_state();
    let mut store = SessionStore::new();
    let sid = store.create(0);
    let rid = store.get_mut(&sid).expect("session").pending.allocate();
    let cfg = HttpConfig::default();
    let body = format!(r#"{{"jsonrpc":"2.0","id":"{rid}","result":{{"ok":true}}}}"#);
    let h = headers(&[("Content-Type", "application/json"), ("Mcp-Session-Id", &sid)]);
    let res = call(&cfg, &mut store, &state, "POST", "/mcp", &h, Some(&body));
    assert_eq!(res.status, 202);
    // The same answer a second time is no longer pending.
    let again = call(&cfg, &mut store, &state, "POST", "/mcp", &h, Some(&body));
    assert_ne!(again.status, 202);
}

#[test]
fn cors_headers_and_options() {
    let state = contract_state();
    let mut store = SessionStore::new();
    let cfg = HttpConfig::default().with_cors("*");
    let empty = TextMap::new();
    let res = call(&cfg, &mut store, &state, "OPTIONS", "/mcp", &empty, None);
    assert_eq!(res.status, 204);
    assert_eq!(res.header("Access-Control-Allow-Origin"), Some("*"));
    let h = cors_response_headers("https://example.com");
    assert!(h.iter().any(|(k, _)| k == "Access-Control-Expose-Headers"));
}

#[test]
fn wave5_product_streamable_http_surface() {
    assert_eq!(DEFAULT_BASE_PATH, "/mcp");
    assert_eq!(DEFAULT_PORT, 3000);
    assert!(is_auth_enabled(&AuthOptions::with_api_key("x")));
    let cfg = HttpConfig::new().with_port(9).with_hostname("127.0.0.1");
    assert_eq!(cfg.health_path(), "/mcp/health");
    assert_eq!(cfg.port, 9);
}

#[test]
fn not_found_and_wrong_method_answers() {
    let state = contract_state();
    let mut store = SessionStore::new();
    let cfg = HttpConfig::default();
    let empty = TextMap::new();
    let nf = call(&cfg, &mut store, &state, "POST", "/elsewhere", &empty, Some("{}"));
    assert_eq!(nf.status, 404);
    assert_eq!(text(field(nf.body.as_ref().unwrap(), "error")), Some("Not found"));
    let na = call(&cfg, &mut store, &state, "GET", "/mcp", &empty, None);
    assert_eq!(na.status, 405);
    assert!(na.body.is_none());
    assert!(store.is_empty());
}

#[test]
fn notification_gets_204_and_ping_gets_empty_result() {
    let state = contract_state();
    let mut store = SessionStore::new();
    let cfg = HttpConfig::default();
    let h = headers(&[("Content-Type", "application/json")]);
    let n = call(&cfg, &mut store, &state, "POST", "/mcp", &h, Some(r#"{"jsonrpc":"2.0","method":"notifications/initialized"}"#));
    assert_eq!(n.status, 204);
    let p = call(&cfg, &mut store, &state, "POST", "/mcp", &h, Some(r#"{"jsonrpc":"2.0","id":"p","method":"ping"}"#));
    assert_eq!(p.status, 200);
    let result = field(p.body.as_ref().unwrap(), "result");
    assert!(matches!(result, Json::Object(m) if m.is_empty()));
    let u = call(&cfg, &mut store, &state, "POST", "/mcp", &h, Some(r#"{"jsonrpc":"2.0","id":2,"method":"nope"}"#));
    assert_eq!(u.status, 200);
    assert_eq!(int_value(field(field(u.body.as_ref().unwrap(), "error"), "code")), Some(-32601));
    assert!(store.is_empty());
}

#[test]
fn initialize_with_event_stream_answers_sse() {
    let state = contract_state();
    let mut store = SessionStore::new();
    let cfg = HttpConfig::default();
    // Only the first listed media type of the Accept header is read.
    let json_first = headers(&[("Accept", "application/json, text/event-stream")]);
    let res = call(&cfg, &mut store, &state, "POST", "/mcp", &json_first, Some(INIT_BODY));
    assert!(res.body.is_some());
    let h = headers(&[("Accept", "text/event-stream, application/json")]);
    let res = call(&cfg, &mut store, &state, "POST", "/mcp", &h, Some(INIT_BODY));
    assert_eq!(res.status, 200);
    let raw = res.raw_body.as_deref().unwrap_or("");
    assert!(raw.starts_with("event: message\ndata: {"));
    assert!(raw.contains("\"serverInfo\""));
    assert_eq!(store.len(), 2);
}

#[test]
fn base_path_and_paths() {
    let cfg = HttpConfig::new().with_base_path("api/");
    assert_eq!(cfg.base_path, "/api");
    assert_eq!(cfg.jsonrpc_path(), "/api");
    assert_eq!(cfg.health_path(), "/api/health");
    assert_eq!(classify_route("post", "/api/", &cfg), RouteClass::JsonRpc);
}

#[test]
fn query_string_does_not_open_the_json_rpc_path() {
    let state = contract_state();
    let mut store = SessionStore::new();
    let cfg = HttpConfig::default().with_api_key("secret");
    let h = headers(&[("Content-Type", "application/json")]);
    let res = call(&cfg, &mut store, &state, "POST", "/mcp?x=/health", &h, Some(INIT_BODY));
    assert_eq!(res.status, 401);
    assert!(res.header("WWW-Authenticate").is_some());
    assert_eq!(store.len(), 0);
    assert!(!mcp_sdk::http_auth::is_auth_bypass_path("/mcp?x=/health"));
    assert!(mcp_sdk::http_auth::is_auth_bypass_path("/mcp/health?x=1"));
    let health = call(&cfg, &mut store, &state, "GET", "/mcp/health?probe=1", &TextMap::new(), None);
    assert_eq!(health.status, 200);
}

#[test]
fn answers_carry_content_type_and_empty_bodies() {
    let state = contract_state();
    let mut store = SessionStore::new();
    let cfg = HttpConfig::default();
    let empty = TextMap::new();
    let health = call(&cfg, &mut store, &state, "GET", "/mcp/health", &empty, None);
    assert_eq!(health.header("Content-Type"), Some("application/json"));
    assert!(health.raw_body.is_none());
    let unknown = headers(&[("Mcp-Session-Id", "nope")]);
    let nf = call(&cfg, &mut store, &state, "POST", "/mcp", &unknown, Some(INIT_BODY));
    assert_eq!(nf.status, 404);
    assert_eq!(nf.header("Content-Type"), Some("application/json"));
    let note = call(&cfg, &mut store, &state, "POST", "/mcp", &empty, Some(r#"{"jsonrpc":"2.0","method":"notifications/initialized"}"#));
    assert_eq!(note.status, 204);
    assert!(note.body.is_none());
    assert_eq!(note.raw_body.as_deref(), Some(""));
    let wrong = call(&cfg, &mut store, &state, "GET", "/mcp", &empty, None);
    assert_eq!(wrong.status, 405);
    assert!(wrong.body.is_none());
    assert_eq!(wrong.raw_body.as_deref(), Some(""));
    assert_eq!(store.len(), 0);
}

#[test]
fn acknowledgement_keeps_the_rest_of_the_store() {
    let state = contract_state();
    let mut store = SessionStore::new();
    let sid = store.create(0);
    let other = store.create(5);
    let rid = store.get_mut(&sid).expect("session").pending.allocate();
    let keep = store.get_mut(&sid).expect("session").pending.allocate();
    let cfg = HttpConfig::default();
    let body = format!(r#"{{"jsonrpc":"2.0","id":"{rid}","result":{{"ok":true}}}}"#);
    let h = headers(&[("Content-Type", "application/json"), ("Mcp-Session-Id", &sid)]);
    let res = call(&cfg, &mut store, &state, "POST", "/mcp", &h, Some(&body));
    assert_eq!(res.status, 202);
    assert!(res.body.is_none());
    assert_eq!(res.raw_body.as_deref(), Some(""));
    assert_eq!(store.len(), 2);
    assert!(store.contains(&other));
    let session = store.get(&sid).expect("session");
    assert!(!session.pending.is_pending(&rid));
    assert!(session.pending.is_pending(&keep));
}

#[test]
fn initialize_grows_the_store_by_one() {
    let state = contract_state();
    let mut store = SessionStore::new();
    let cfg = HttpConfig::default();
    let h = headers(&[("Content-Type", "application/json")]);
    let res = call(&cfg, &mut store, &state, "POST", "/mcp", &h, Some(INIT_BODY));
    assert_eq!(res.status, 200);
    assert_eq!(store.len(), 1);
    let id = res.header(MCP_SESSION_ID_HEADER).expect("session id").to_string();
    assert!(store.contains(&id));
    assert_eq!(res.headers[0].0, "Mcp-Session-Id");
}

#[test]
fn cors_headers_on_every_answer() {
    let state = contract_state();
    let mut store = SessionStore::new();
    let cfg = HttpConfig::default().with_cors("https://example.com");
    let empty = TextMap::new();
    let health = call(&cfg, &mut store, &state, "GET", "/mcp/health", &empty, None);
    assert_eq!(health.header("Access-Control-Allow-Origin"), Some("https://example.com"));
    assert_eq!(health.header("Access-Control-Expose-Headers"), Some("Mcp-Session-Id"));
    let h = headers(&[("Content-Type", "application/json")]);
    let init = call(&cfg, &mut store, &state, "POST", "/mcp", &h, Some(INIT_BODY));
    assert_eq!(init.status, 200);
    assert_eq!(init.header("Access-Control-Allow-Origin"), Some("https://example.com"));
    assert_eq!(init.headers[0].0, "Mcp-Session-Id");
    let plain = HttpConfig::default();
    let none = call(&plain, &mut store, &state, "GET", "/mcp/health", &empty, None);
    assert!(none.header("Access-Control-Allow-Origin").is_none());
}

#[test]
fn normalized_base_paths_are_stable() {
    for p in ["", "mcp", "/mcp/", "///", "/a/b//"] {
        let n = normalize_base_path(p);
        assert_eq!(normalize_base_path(&n), n);
        assert!(n.starts_with('/'));
        assert!(n == "/" || !n.ends_with('/'));
    }
    assert_eq!(normalize_base_path(""), "/mcp");
    let cfg = HttpConfig::default().with_base_path("/api/");
    assert_eq!(classify_route("get", &cfg.health_path(), &cfg), RouteClass::Health);
    assert_eq!(classify_route("POST", &cfg.jsonrpc_path(), &cfg), RouteClass::JsonRpc);
    assert_eq!(classify_route("OPTIONS", &cfg.jsonrpc_path(), &cfg), RouteClass::Options);
    assert_eq!(classify_route("GET", &cfg.jsonrpc_path(), &cfg), RouteClass::MethodNotAllowed);
}
