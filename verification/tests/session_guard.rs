use mcp_sdk::json::Json;
use mcp_sdk::session_guard::{
    allocate_pending_on_session, guard_session_id, is_unknown_session, looks_like_session_id,
    method_allocates_session, new_session_id, new_session_response_headers, read_session_id_header,
    session_not_found_body, session_not_found_headers, should_emit_new_session_header, take_pending_on_session,
    SessionGuardResult, SessionStore, DEFAULT_PENDING_TIMEOUT_MS, MCP_SESSION_ID_HEADER,
    SESSION_NOT_FOUND_STATUS, UUID_V4_PATTERN,
};
use mcp_sdk::textmap::TextMap;

fn text_member<'a>(j: &'a Json, key: &str) -> Option<&'a str> {
    j.get(key).and_then(|v| v.as_str()).map(|s| s.as_str())
}

#[test]
fn new_session_id_looks_like_uuid() {
    let id = new_session_id();
    assert!(looks_like_session_id(&id), "id={id}");
    assert_eq!(id.len(), 36);
}

#[test]
fn looks_like_session_id_rejects_junk() {
    assert!(!looks_like_session_id(""));
    assert!(!looks_like_session_id("not-a-uuid"));
    assert!(!looks_like_session_id("00000000-0000-4000-8000-00000000000"));
    assert!(looks_like_session_id("00000000-0000-4000-8000-000000000000"));
}

#[test]
fn store_create_get_clear() {
    let mut store = SessionStore::new();
    assert!(store.is_empty());
    let id = store.create(1_000);
    assert_eq!(store.len(), 1);
    assert!(store.contains(&id));
    assert_eq!(store.get(&id).map(|s| s.created_at_ms), Some(1_000));
    store.clear();
    assert!(store.is_empty());
}

#[test]
fn guard_anonymous_known_not_found() {
    let mut store = SessionStore::new();
    let id = store.create_with_id("aaaaaaaa-bbbb-cccc-dddd-eeeeeeeeeeee", 0);
    assert_eq!(guard_session_id(&store, None), SessionGuardResult::Anonymous);
    assert_eq!(guard_session_id(&store, Some("")), SessionGuardResult::Anonymous);
    assert_eq!(guard_session_id(&store, Some(&id)), SessionGuardResult::Known { session_id: id.clone() });
    assert_eq!(
        guard_session_id(&store, Some("00000000-0000-4000-8000-000000000000")),
        SessionGuardResult::NotFound { session_id: "00000000-0000-4000-8000-000000000000".into() }
    );
    assert!(is_unknown_session(&store, Some("00000000-0000-4000-8000-000000000000")));
    assert!(!is_unknown_session(&store, Some(&id)));
    assert!(!is_unknown_session(&store, None));
}

#[test]
fn session_not_found_body_shape() {
    let body = session_not_found_body();
    assert_eq!(text_member(&body, "error"), Some("Session not found"));
    assert_eq!(SESSION_NOT_FOUND_STATUS, 404);
}

#[test]
fn read_session_id_header_case_insensitive() {
    let mut h = TextMap::new();
    h.insert("MCP-SESSION-ID".to_string(), "  abc  ".to_string());
    assert_eq!(read_session_id_header(&h).as_deref(), Some("abc"));
    let empty = TextMap::new();
    assert!(read_session_id_header(&empty).is_none());
}

#[test]
fn method_allocates_and_emit_header() {
    assert!(method_allocates_session("initialize"));
    assert!(!method_allocates_session("tools/list"));
    assert!(should_emit_new_session_header(true, false, true));
    assert!(!should_emit_new_session_header(true, true, true));
    assert!(!should_emit_new_session_header(true, false, false));
    assert!(!should_emit_new_session_header(false, false, true));
}

#[test]
fn pending_allocate_and_take() {
    let mut store = SessionStore::new();
    let id = store.create(0);
    let rid = allocate_pending_on_session(&mut store, &id).expect("session");
    assert!(rid.starts_with("server-"));
    assert!(take_pending_on_session(&mut store, &id, &rid));
    assert!(!take_pending_on_session(&mut store, &id, &rid));
    assert!(allocate_pending_on_session(&mut store, "missing").is_none());
}

#[test]
fn new_session_response_headers_include_id() {
    let h = new_session_response_headers("sid-1");
    assert!(h.iter().any(|(k, v)| k == MCP_SESSION_ID_HEADER && v == "sid-1"));
}

#[test]
fn wave5_product_session_guard_surface() {
    let store = SessionStore::new();
    let unknown = "00000000-0000-4000-8000-000000000000";
    assert!(is_unknown_session(&store, Some(unknown)));
    let body = session_not_found_body();
    assert_eq!(text_member(&body, "error"), Some("Session not found"));
    match &body {
        Json::Object(members) => assert_eq!(members.len(), 1),
        _ => panic!("object expected"),
    }
    assert!(UUID_V4_PATTERN.contains("0-9a-f"));
    assert_eq!(DEFAULT_PENDING_TIMEOUT_MS, 30_000);
}

#[test]
fn session_lifecycle_create_remove() {
    let mut store = SessionStore::new();
    let a = store.create(5);
    let b = store.create(6);
    assert_ne!(a, b);
    assert!(looks_like_session_id(&a));
    assert_eq!(store.len(), 2);
    assert!(store.remove(&a));
    assert!(!store.remove(&a));
    assert!(!store.contains(&a));
    assert!(store.contains(&b));
    assert!(is_unknown_session(&store, Some(&a)));
}

#[test]
fn pending_on_session_ids_are_distinct() {
    let mut store = SessionStore::new();
    let sid = store.create(0);
    let r1 = allocate_pending_on_session(&mut store, &sid).unwrap();
    let r2 = allocate_pending_on_session(&mut store, &sid).unwrap();
    assert_eq!(r1, "server-1");
    assert_eq!(r2, "server-2");
    assert!(!take_pending_on_session(&mut store, "nope", &r1));
    assert!(take_pending_on_session(&mut store, &sid, &r2));
    assert!(take_pending_on_session(&mut store, &sid, &r1));
}

#[test]
fn session_not_found_headers_are_json() {
    let h = session_not_found_headers();
    assert!(h.iter().any(|(k, v)| k == "Content-Type" && v == "application/json"));
}

#[test]
fn looks_like_session_id_checks_shape() {
    assert!(looks_like_session_id("ABCDEF00-0000-4000-8000-000000000000"));
    assert!(!looks_like_session_id("00000000-0000-4000-8000-00000000000g"));
    assert!(!looks_like_session_id("00000000000000400080000000000000000000"));
}

#[test]
fn store_size_follows_create_and_remove() {
    let mut store = SessionStore::new();
    let a = store.create(1);
    let b = store.create(2);
    assert_eq!(store.len(), 2);
    assert!(store.remove(&a));
    assert_eq!(store.len(), 1);
    assert!(!store.remove(&a));
    assert_eq!(store.len(), 1);
    assert!(store.contains(&b));
    assert!(!mcp_sdk::session_guard::take_pending_on_session(&mut store, "missing", "server-1"));
    assert_eq!(store.len(), 1);
}
