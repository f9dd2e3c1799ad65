use mcp_sdk::json::Json;
use mcp_sdk::notifications::{
    cancelled_n, emit_with, log, noop_emit, progress, prompts_list_changed_n, resource_updated_n, resources_list_changed_n,
    roots_list_changed, to_jsonrpc, tools_list_changed_n, EmittedNotification, Notification, RecordingEmitter,
};

fn obj(members: Vec<(&str, Json)>) -> Json {
    Json::Object(members.into_iter().map(|(k, v)| (k.to_string(), v)).collect())
}

fn number(j: &Json) -> Option<f64> {
    match j {
        Json::Int(n) => Some(*n as f64),
        Json::Float(t) => t.parse::<f64>().ok(),
        _ => None,
    }
}

#[test]
fn helpers_and_to_jsonrpc() {
    let p = progress(Json::Str("tok".into()), Json::Float("50.0".into()), Some(Json::Float("100.0".into())), Some("half".into()));
    let w = to_jsonrpc(&p);
    assert!(w.method.contains("progress"));
    assert_eq!(w.params.as_ref().and_then(|p| p.get("progress")).and_then(number), Some(50.0));

    let l = log("info", obj(vec![("ok", Json::Bool(true))]), Some("test".into()));
    let w = to_jsonrpc(&l);
    assert!(w.method.contains("message") || w.method.contains("log"));

    for n in [
        resources_list_changed_n(),
        tools_list_changed_n(),
        prompts_list_changed_n(),
        resource_updated_n("u://x"),
        cancelled_n(Json::Int(1), Some("bye".into())),
    ] {
        let w = to_jsonrpc(&n);
        assert!(!w.method.is_empty());
    }
}

#[test]
fn recording_emitter() {
    let mut e = RecordingEmitter::new();
    e.emit(&tools_list_changed_n());
    e.emit(&progress(Json::Int(1), Json::Float("1.0".into()), None, None));
    assert_eq!(e.len(), 2);
    assert!(!e.is_empty());
    e.clear();
    assert!(e.is_empty());
}

#[test]
fn wave4_product_notifications_surface() {
    let n = progress(Json::Null, Json::Float("0.0".into()), None, None);
    let e: EmittedNotification = to_jsonrpc(&n).into();
    assert!(!e.method.is_empty());
}

#[test]
fn wire_methods_and_params() {
    let w = to_jsonrpc(&tools_list_changed_n());
    assert_eq!(w.method, "notifications/tools/list_changed");
    assert!(w.params.is_none());
    let w = to_jsonrpc(&roots_list_changed());
    assert_eq!(w.method, "notifications/roots/list_changed");
    let w = to_jsonrpc(&resource_updated_n("u://x"));
    assert_eq!(w.method, "notifications/resources/updated");
    assert_eq!(w.params, Some(obj(vec![("uri", Json::Str("u://x".into()))])));
    let w = to_jsonrpc(&cancelled_n(Json::Int(7), None));
    assert_eq!(w.method, "notifications/cancelled");
    assert_eq!(w.params, Some(obj(vec![("requestId", Json::Int(7))])));
    let w = to_jsonrpc(&log("error", Json::Str("x".into()), None));
    assert_eq!(w.method, "notifications/message");
    assert_eq!(w.params, Some(obj(vec![("level", Json::Str("error".into())), ("data", Json::Str("x".into()))])));
}

#[test]
fn progress_params_keep_optional_members() {
    let w = to_jsonrpc(&progress(Json::Str("t".into()), Json::Int(3), None, None));
    assert_eq!(w.params, Some(obj(vec![("progressToken", Json::Str("t".into())), ("progress", Json::Int(3))])));
    let w = to_jsonrpc(&progress(Json::Str("t".into()), Json::Int(3), Some(Json::Int(4)), Some("m".into())));
    assert_eq!(
        w.params,
        Some(obj(vec![
            ("progressToken", Json::Str("t".into())),
            ("progress", Json::Int(3)),
            ("total", Json::Int(4)),
            ("message", Json::Str("m".into())),
        ]))
    );
    assert!(matches!(progress(Json::Null, Json::Int(0), None, None), Notification::Progress { .. }));
}

#[test]
fn recording_emitter_keeps_order() {
    let mut e = RecordingEmitter::new();
    e.emit(&resources_list_changed_n());
    e.emit(&prompts_list_changed_n());
    assert_eq!(e.emissions[0].method, "notifications/resources/list_changed");
    assert_eq!(e.emissions[1].method, "notifications/prompts/list_changed");
    noop_emit(&tools_list_changed_n());
    assert_eq!(e.len(), 2);
}

#[test]
fn emit_with_callback() {
    let mut got: Vec<String> = Vec::new();
    emit_with(&resources_list_changed_n(), |method, _| {
        got.push(method.to_string());
    });
    assert_eq!(got.len(), 1);
    noop_emit(&tools_list_changed_n());
}

#[test]
fn emit_with_hands_over_method_and_params() {
    let expected = obj(vec![("uri", Json::Str("file:///a".to_string()))]);
    let mut seen: Vec<(String, bool)> = Vec::new();
    emit_with(&resource_updated_n("file:///a"), |method, params| {
        seen.push((method.to_string(), params == Some(&expected)));
    });
    assert_eq!(seen, vec![("notifications/resources/updated".to_string(), true)]);
}
