use mcp_sdk::app::AppConfig;
use mcp_sdk::fixtures::{
    assert_fixture_match, fixture_config, json_equal, match_value, run_fixture, FixtureAuth, FixtureRequest,
    FixtureResponseExpect, TransportFixture,
};
use mcp_sdk::json::Json;
use mcp_sdk::session_guard::{SessionStore, UUID_V4_PATTERN};
use mcp_sdk::textmap::TextMap;

fn from_value(v: &serde_json::Value) -> Json {
    match v {
        serde_json::Value::Null => Json::Null,
        serde_json::Value::Bool(b) => Json::Bool(*b),
        serde_json::Value::Number(n) => match n.as_i64() {
            Some(i) => Json::Int(i128::from(i)),
            None => match n.as_u64() {
                Some(u) => Json::Int(i128::from(u)),
                None => Json::Float(n.to_string()),
            },
        },
        serde_json::Value::String(s) => Json::Str(s.clone()),
        serde_json::Value::Array(a) => Json::Array(a.iter().map(from_value).collect()),
        serde_json::Value::Object(o) => Json::Object(o.iter().map(|(k, v)| (k.clone(), from_value(v))).collect()),
    }
}

fn j(text: &str) -> Json {
    from_value(&serde_json::from_str::<serde_json::Value>(text).expect("json"))
}


fn fixture(method: &str, path: &str, headers: &[(&str, &str)], body: Option<Json>, key: Option<&str>, status: u16) -> TransportFixture {
    let mut h = TextMap::new();
    for (k, v) in headers {
        h.insert((*k).to_string(), (*v).to_string());
    }
    TransportFixture {
        request: FixtureRequest { method: method.to_string(), path: path.to_string(), headers: h, body },
        auth: key.map(|k| FixtureAuth { api_key: Some(k.to_string()) }),
        response: FixtureResponseExpect { status, headers: TextMap::new(), body: None },
    }
}

#[test]
fn equality_is_map_equality() {
    assert!(json_equal(&j(r#"{"a":1,"b":[1,2]}"#), &j(r#"{"b":[1,2],"a":1}"#)));
    let reordered = Json::Object(vec![("b".to_string(), Json::Int(2)), ("a".to_string(), Json::Int(1))]);
    let ordered = Json::Object(vec![("a".to_string(), Json::Int(1)), ("b".to_string(), Json::Int(2))]);
    assert!(json_equal(&reordered, &ordered));
    assert!(!json_equal(&j("[1,2]"), &j("[2,1]")));
    assert!(!json_equal(&j("1"), &j("1.0")));
    assert!(!json_equal(&j(r#"{"a":1}"#), &j(r#"{"a":1,"b":2}"#)));
}

#[test]
fn loose_matching() {
    assert!(match_value(&j(r#""Parse error: x""#), &j(r#"{"contains":"PARSE ERROR"}"#), "body").is_ok());
    assert!(match_value(&j(r#""nope""#), &j(r#"{"contains":"parse"}"#), "body").is_err());
    let pat = format!(r#"{{"pattern":"{}"}}"#, UUID_V4_PATTERN.replace('\\', "\\\\"));
    assert!(match_value(&j(r#""00000000-0000-4000-8000-000000000000""#), &j(&pat), "id").is_ok());
    assert!(match_value(&j(r#""not-a-uuid""#), &j(&pat), "id").is_err());
    assert!(match_value(&j(r#""ok""#), &j(r#"{"pattern":"^ok$"}"#), "s").is_ok());
    assert!(match_value(&j(r#""oks""#), &j(r#"{"pattern":"^ok$"}"#), "s").is_err());
    assert!(match_value(&j(r#""anything""#), &j(r#"{"pattern":"a+"}"#), "s").is_ok());
    // Objects match member by member; extra members of the actual value are fine.
    let actual = j(r#"{"jsonrpc":"2.0","error":{"code":-32001,"message":"Unauthorized"},"id":null}"#);
    assert!(match_value(&actual, &j(r#"{"error":{"code":-32001}}"#), "body").is_ok());
    let err = match_value(&actual, &j(r#"{"error":{"code":-32000}}"#), "body").unwrap_err();
    assert!(err.starts_with("body.error.code"));
    assert!(match_value(&actual, &j(r#"{"missing":null}"#), "body").is_ok());
    assert!(match_value(&j("5"), &j("5"), "n").is_ok());
    assert!(match_value(&j("5"), &j(r#"{"a":5}"#), "n").is_err());
}

#[test]
fn fixture_runs_and_matches() {
    let state = AppConfig::new().with_name("contract-fixture-server").with_version("0.0.0-contract").build();
    let mut store = SessionStore::new();
    let health = fixture("GET", "/mcp/health", &[], None, Some("k"), 200);
    let res = run_fixture(&state, &mut store, &health, 0);
    assert_eq!(res.status, 200);
    let mut expect = FixtureResponseExpect { status: 200, headers: TextMap::new(), body: Some(j(r#"{"status":"ok"}"#)) };
    expect.headers.insert("content-type".to_string(), Json::Str("APPLICATION/JSON".to_string()));
    assert!(assert_fixture_match(&res, &expect).is_ok());
    expect.status = 201;
    assert!(assert_fixture_match(&res, &expect).is_err());

    let init_text = r#"{"jsonrpc":"2.0","id":1,"method":"initialize","params":{"protocolVersion":"2025-03-26"}}"#;
    let init = fixture("POST", "/mcp", &[("Content-Type", "application/json")], Some(Json::Str(init_text.to_string())), Some("k"), 401);
    let denied = run_fixture(&state, &mut store, &init, 0);
    assert_eq!(denied.status, 401);
    let mut expect = FixtureResponseExpect { status: 401, headers: TextMap::new(), body: None };
    // A pattern without metacharacters is compared literally.
    expect.headers.insert("WWW-Authenticate".to_string(), j(r#"{"pattern":"^Bearer"}"#));
    assert!(assert_fixture_match(&denied, &expect).is_err());
    expect.headers.insert("WWW-Authenticate".to_string(), j(r#"{"pattern":"^Bearer.*"}"#));
    assert!(assert_fixture_match(&denied, &expect).is_ok());

    let open = fixture("POST", "/mcp", &[("Content-Type", "application/json")], Some(Json::Str(init_text.to_string())), None, 200);
    let ok = run_fixture(&state, &mut store, &open, 0);
    assert_eq!(ok.status, 200);
    let pat = format!(r#"{{"pattern":"{}"}}"#, UUID_V4_PATTERN.replace('\\', "\\\\"));
    let mut expect = FixtureResponseExpect {
        status: 200,
        headers: TextMap::new(),
        body: Some(j(r#"{"result":{"serverInfo":{"name":"contract-fixture-server"}}}"#)),
    };
    expect.headers.insert("Mcp-Session-Id".to_string(), j(&pat));
    assert!(assert_fixture_match(&ok, &expect).is_ok());
    assert_eq!(store.len(), 1);
}

#[test]
fn fixture_errors_say_what_differs() {
    assert_eq!(match_value(&j("5"), &j("6"), "n"), Err("n: actual 5 expected 6".to_string()));
    assert_eq!(
        match_value(&j(r#""nope""#), &j(r#"{"contains":"parse"}"#), "body"),
        Err(r#"body: "nope" missing "parse""#.to_string())
    );
    assert_eq!(match_value(&j(r#""oks""#), &j(r#"{"pattern":"^ok$"}"#), "s"), Err(r#"s: "oks" !~ ^ok$"#.to_string()));
    assert_eq!(match_value(&j("[1]"), &j(r#"{"pattern":"^x$"}"#), "v"), Err(r#"v: "[1]" !~ ^x$"#.to_string()));
    let actual = j(r#"{"jsonrpc":"2.0","error":{"code":-32001,"message":"Unauthorized"},"id":null}"#);
    assert_eq!(
        match_value(&actual, &j(r#"{"error":{"code":-32000}}"#), "body"),
        Err("body.error.code: actual -32001 expected -32000".to_string())
    );
    // Members are checked in the order of their keys.
    let two = Json::Object(vec![("b".to_string(), Json::Int(1)), ("a".to_string(), Json::Int(2))]);
    assert_eq!(match_value(&j(r#"{"a":0,"b":0}"#), &two, "x"), Err("x.a: actual 0 expected 2".to_string()));
    assert_eq!(
        match_value(&j(r#"{"z":[1,{"q":1,"p":2}]}"#), &j(r#"{"z":[]}"#), "x"),
        Err(r#"x.z: actual [1,{"p":2,"q":1}] expected []"#.to_string())
    );

    let state = AppConfig::new().build();
    let mut store = SessionStore::new();
    let health = fixture("GET", "/mcp/health", &[], None, None, 200);
    let res = run_fixture(&state, &mut store, &health, 0);
    let expect = FixtureResponseExpect { status: 201, headers: TextMap::new(), body: None };
    assert_eq!(assert_fixture_match(&res, &expect), Err("status: actual 200 expected 201".to_string()));
    let mut expect = FixtureResponseExpect { status: 200, headers: TextMap::new(), body: None };
    expect.headers.insert("content-type".to_string(), Json::Str("text/plain".to_string()));
    assert_eq!(
        assert_fixture_match(&res, &expect),
        Err(r#"header content-type: actual "application/json" expected "text/plain""#.to_string())
    );
    let mut expect = FixtureResponseExpect { status: 200, headers: TextMap::new(), body: None };
    expect.headers.insert("x-missing".to_string(), j(r#"{"pattern":"^a$"}"#));
    assert_eq!(assert_fixture_match(&res, &expect), Err(r#"header x-missing: "" does not match pattern ^a$"#.to_string()));
    let expect = FixtureResponseExpect { status: 200, headers: TextMap::new(), body: Some(j(r#"{"status":"down"}"#)) };
    assert_eq!(
        assert_fixture_match(&res, &expect),
        Err(r#"body.status: actual "ok" expected "down""#.to_string())
    );
}

#[test]
fn fixture_config_uses_key() {
    let c = fixture_config(&Some(FixtureAuth { api_key: Some("s".into()) }));
    assert_eq!(c.auth.api_key.as_deref(), Some("s"));
    assert_eq!(c.base_path, "/mcp");
    let d = fixture_config(&None);
    assert!(d.auth.api_key.is_none());
    assert!(fixture_config(&Some(FixtureAuth { api_key: None })).auth.api_key.is_none());
}
