use mcp_sdk::http_auth::{
    authorize_request, constant_time_eq, is_auth_bypass_path, is_auth_enabled, is_authorized_api_key,
    is_cors_preflight, read_header_map, read_header_multi, sha256_bytes, unauthorized_body,
    unauthorized_headers, verify_api_key, AuthDecision, AuthOptions, UNAUTHORIZED_CODE, UNAUTHORIZED_STATUS,
    WWW_AUTHENTICATE,
};
use mcp_sdk::json::Json;
use mcp_sdk::textmap::TextMap;

const API_KEY: &str = "s3cret-key";

fn field<'a>(j: &'a Json, key: &str) -> &'a Json {
    match j.get(key) {
        Some(v) => v,
        None => panic!("missing member {key}"),
    }
}

fn text(j: &Json) -> Option<&str> {
    j.as_str().map(|s| s.as_str())
}

#[test]
fn verify_api_key_accepts_matching() {
    assert!(verify_api_key(API_KEY, Some(API_KEY)));
}

#[test]
fn verify_api_key_rejects_wrong() {
    assert!(!verify_api_key(API_KEY, Some("wrong")));
}

#[test]
fn verify_api_key_rejects_missing_or_empty() {
    assert!(!verify_api_key(API_KEY, None));
    assert!(!verify_api_key(API_KEY, Some("")));
}

#[test]
fn constant_time_eq_length_mismatch() {
    assert!(!constant_time_eq(b"ab", b"a"));
    assert!(constant_time_eq(b"ab", b"ab"));
    assert!(!constant_time_eq(b"ab", b"ac"));
}

#[test]
fn read_header_map_case_insensitive() {
    let mut m = TextMap::new();
    m.insert("X-API-Key".to_string(), API_KEY.to_string());
    assert_eq!(read_header_map(&m, "x-api-key").as_deref(), Some(API_KEY));
    assert_eq!(read_header_map(&m, "X-API-KEY").as_deref(), Some(API_KEY));
    assert!(read_header_map(&m, "authorization").is_none());
}

#[test]
fn read_header_multi_takes_first() {
    let mut m = TextMap::new();
    m.insert("x-api-key".to_string(), vec![API_KEY.to_string(), "other".to_string()]);
    assert_eq!(read_header_multi(&m, "X-API-Key").as_deref(), Some(API_KEY));
    let empty: TextMap<Vec<String>> = TextMap::new();
    assert!(read_header_multi(&empty, "x-api-key").is_none());
}

#[test]
fn is_authorized_api_key_precedence() {
    let with = AuthOptions::with_api_key(API_KEY);
    let none = AuthOptions::none();
    assert!(is_authorized_api_key(&none, None));
    assert!(!is_authorized_api_key(&with, None));
    assert!(!is_authorized_api_key(&with, Some("wrong")));
    assert!(is_authorized_api_key(&with, Some(API_KEY)));
    assert!(is_auth_enabled(&with));
    assert!(!is_auth_enabled(&none));
}

#[test]
fn unauthorized_body_shape() {
    let body = unauthorized_body();
    assert_eq!(text(field(&body, "jsonrpc")), Some("2.0"));
    assert!(field(&body, "id").is_null());
    let error = field(&body, "error");
    assert!(matches!(field(error, "code"), Json::Int(c) if *c == UNAUTHORIZED_CODE as i128));
    assert_eq!(text(field(error, "message")), Some("Unauthorized"));
}

#[test]
fn authorize_request_health_and_options_open() {
    let opts = AuthOptions::with_api_key(API_KEY);
    assert!(authorize_request(&opts, "GET", "/mcp/health", None).is_allow());
    assert!(authorize_request(&opts, "OPTIONS", "/mcp", None).is_allow());
    assert!(authorize_request(&opts, "POST", "/mcp", None).is_deny());
    assert!(authorize_request(&opts, "POST", "/mcp", Some(API_KEY)).is_allow());
    assert!(authorize_request(&AuthOptions::none(), "POST", "/mcp", None).is_allow());
}

#[test]
fn unauthorized_headers_include_www_authenticate() {
    let h = unauthorized_headers();
    assert!(h.iter().any(|(k, v)| k == "WWW-Authenticate" && v == WWW_AUTHENTICATE));
    assert_eq!(UNAUTHORIZED_STATUS, 401);
}

#[test]
fn wave4_product_http_auth_surface() {
    let a = sha256_bytes("a");
    let b = sha256_bytes("a");
    assert!(constant_time_eq(&a, &b));
    assert!(!verify_api_key("x", Some("y")));
    assert!(is_auth_bypass_path("/mcp/health/"));
    assert!(is_cors_preflight("options"));
}

#[test]
fn sha256_digest_of_known_text() {
    let d = sha256_bytes("abc");
    let expected: [u8; 32] = [
        0xba, 0x78, 0x16, 0xbf, 0x8f, 0x01, 0xcf, 0xea, 0x41, 0x41, 0x40, 0xde, 0x5d, 0xae, 0x22, 0x23, 0xb0, 0x03,
        0x61, 0xa3, 0x96, 0x17, 0x7a, 0x9c, 0xb4, 0x10, 0xff, 0x61, 0xf2, 0x00, 0x15, 0xad,
    ];
    assert_eq!(d, expected);
    assert_ne!(sha256_bytes("abd"), d);
}

#[test]
fn auth_decision_laws_on_examples() {
    // Without a key every request passes.
    let none = AuthOptions::none();
    assert_eq!(authorize_request(&none, "DELETE", "/anything", Some("x")), AuthDecision::Allow);
    // Health stays open with any key configured, whatever was sent.
    let with = AuthOptions::with_api_key("k");
    assert_eq!(authorize_request(&with, "GET", "/health", Some("bad")), AuthDecision::Allow);
    assert_eq!(authorize_request(&with, "POST", "/mcp/health", None), AuthDecision::Allow);
    // A missing key is refused once a key is configured.
    assert_eq!(authorize_request(&with, "POST", "/mcp", None), AuthDecision::Deny);
    assert_eq!(authorize_request(&with, "POST", "/mcp", Some("")), AuthDecision::Deny);
    // The configured key is accepted.
    assert!(verify_api_key("k", Some("k")));
}

#[test]
fn bypass_paths_and_preflight() {
    assert!(is_auth_bypass_path("/health"));
    assert!(is_auth_bypass_path("/mcp/health"));
    assert!(!is_auth_bypass_path("/mcp"));
    assert!(!is_auth_bypass_path("/healthz"));
    assert!(is_cors_preflight("OPTIONS"));
    assert!(!is_cors_preflight("POST"));
    let d = AuthOptions::default();
    assert!(!is_auth_enabled(&d));
    assert!(is_auth_enabled(&AuthOptions::with_api_key("")));
}

#[test]
fn read_header_map_trims_and_splits_values() {
    let mut m = TextMap::new();
    m.insert("Accept".to_string(), "  text/plain , application/json ".to_string());
    assert_eq!(read_header_map(&m, "accept").as_deref(), Some("text/plain"));
}

#[test]
fn header_names_ignore_case() {
    let mut h = TextMap::new();
    h.insert("X-API-Key".to_string(), "  key , other".to_string());
    assert_eq!(read_header_map(&h, "x-api-key"), Some("key".to_string()));
    assert_eq!(read_header_map(&h, "X-API-KEY"), Some("key".to_string()));
    assert_eq!(read_header_map(&h, "authorization"), None);
}
