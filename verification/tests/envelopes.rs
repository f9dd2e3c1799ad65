use mcp_sdk::envelopes::{
    basic_completion_result, cancellation_params, cancelled_params, client_capabilities, completion_argument,
    completion_complete_params, completion_complete_result, completion_ref, content_annotations,
    elicitation_create_params, elicitation_create_result, empty_client_capabilities, empty_object_result,
    empty_prompts_list_result, empty_resource_templates_list_result, empty_resources_list_result,
    empty_roots_list_result, empty_server_capabilities, empty_tool_content, empty_tool_result,
    empty_tools_list_result, implementation_info, initialize_params, json_text_content, json_text_pretty,
    list_params, log_entry, log_notification_params, logging_set_level_params, logging_set_level_result,
    meta_with_progress_token, model_hint, model_preferences, normalize_tool_result, ping_result, progress_params,
    progress_notification_params, prompt_messages, prompt_result, prompts_get_params, prompts_list_result,
    resource_blob, resource_contents, resource_templates_list_result, resource_text_result, resources_list_result,
    resources_read_params, resources_read_result, resources_subscribe_params, resources_unsubscribe_params,
    roots_list_result, sampling_create_params, sampling_create_params_ext, sampling_create_result,
    subscription_mutation_result, tool_content_result, tool_error, tool_handler_error_result,
    tool_result_with_structured, tool_text_result, tool_text_success_result, tools_call_params,
    tools_call_params_with_progress, tools_list_result, unknown_tool_error_result, wave26_ping_result_empty,
    wave27_empty_object_result, wave28_empty_array, wave29_empty_object, wave30_notification_ack,
};
use mcp_sdk::json::Json;
use mcp_sdk::protocol::{
    protocol_tool, tool_annotations, Content, EmbeddedResource, user_message, assistant_message,
};
use mcp_sdk::render::to_json_text;
use mcp_sdk::textmap::TextMap;

fn obj(members: Vec<(&str, Json)>) -> Json {
    Json::Object(members.into_iter().map(|(k, v)| (k.to_string(), v)).collect())
}

fn s(t: &str) -> Json {
    Json::Str(t.to_string())
}

fn text(j: &Json) -> String {
    to_json_text(j)
}

#[test]
fn list_results_keep_items_and_cursor() {
    let t = protocol_tool(
        "ping",
        Some("Ping".into()),
        obj(vec![("type", s("object"))]),
        Some(tool_annotations(Some("P".into()), Some(true), None, None, Some(false))),
    );
    assert_eq!(
        text(&tools_list_result(&[t], Some("c1".into()))),
        r#"{"nextCursor":"c1","tools":[{"annotations":{"openWorldHint":false,"readOnlyHint":true,"title":"P"},"description":"Ping","inputSchema":{"type":"object"},"name":"ping"}]}"#
    );
    assert_eq!(text(&tools_list_result(&[], None)), r#"{"tools":[]}"#);
    let r = obj(vec![("uri", s("u://a")), ("name", s("a"))]);
    assert_eq!(text(&resources_list_result(&[r], None)), r#"{"resources":[{"name":"a","uri":"u://a"}]}"#);
    assert_eq!(text(&prompts_list_result(&[], Some("n".into()))), r#"{"nextCursor":"n","prompts":[]}"#);
    assert_eq!(text(&resource_templates_list_result(&[], None)), r#"{"resourceTemplates":[]}"#);
    assert_eq!(text(&roots_list_result(&[obj(vec![("uri", s("file:///"))])])), r#"{"roots":[{"uri":"file:///"}]}"#);
    assert_eq!(text(&empty_tools_list_result()), r#"{"tools":[]}"#);
    assert_eq!(text(&empty_prompts_list_result()), r#"{"prompts":[]}"#);
    assert_eq!(text(&empty_resources_list_result()), r#"{"resources":[]}"#);
    assert_eq!(text(&empty_roots_list_result()), r#"{"roots":[]}"#);
    assert_eq!(text(&empty_resource_templates_list_result()), r#"{"resourceTemplates":[]}"#);
}

#[test]
fn empty_results() {
    for j in [
        ping_result(),
        empty_server_capabilities(),
        empty_client_capabilities(),
        empty_object_result(),
        logging_set_level_result(),
        subscription_mutation_result(),
        wave26_ping_result_empty(),
        wave27_empty_object_result(),
        wave29_empty_object(),
        wave30_notification_ack(),
    ] {
        assert_eq!(text(&j), "{}");
    }
    assert_eq!(text(&wave28_empty_array()), "[]");
    assert_eq!(text(&empty_tool_content()), "[]");
}

#[test]
fn tool_results() {
    assert_eq!(text(&empty_tool_result()), r#"{"content":[],"isError":false}"#);
    assert_eq!(text(&tool_error("boom")), r#"{"content":[{"text":"boom","type":"text"}],"isError":true}"#);
    assert_eq!(text(&tool_text_result("ok", false)), r#"{"content":[{"text":"ok","type":"text"}],"isError":false}"#);
    assert_eq!(text(&tool_text_success_result("hi")), r#"{"content":[{"text":"hi","type":"text"}],"isError":false}"#);
    assert_eq!(
        text(&unknown_tool_error_result("x")),
        r#"{"content":[{"text":"Unknown tool: x","type":"text"}],"isError":true}"#
    );
    assert_eq!(
        text(&tool_handler_error_result("bad")),
        r#"{"content":[{"text":"Tool error: bad","type":"text"}],"isError":true}"#
    );
    let c = [Content::text("a"), Content::image("AA", "image/png")];
    assert_eq!(
        text(&tool_content_result(&c, false)),
        r#"{"content":[{"text":"a","type":"text"},{"data":"AA","mimeType":"image/png","type":"image"}],"isError":false}"#
    );
    assert_eq!(
        text(&tool_result_with_structured(&[], true, Some(obj(vec![("n", Json::Int(1))])))),
        r#"{"content":[],"isError":true,"structuredContent":{"n":1}}"#
    );
}

#[test]
fn normalize_tool_result_shapes() {
    let full = obj(vec![("content", Json::Array(vec![])), ("isError", Json::Bool(true))]);
    assert_eq!(normalize_tool_result(&full), full);
    let arr = Json::Array(vec![s("x")]);
    assert_eq!(text(&normalize_tool_result(&arr)), r#"{"content":["x"]}"#);
    let item = obj(vec![("type", s("text")), ("text", s("t"))]);
    assert_eq!(text(&normalize_tool_result(&item)), r#"{"content":[{"text":"t","type":"text"}]}"#);
    // An object whose content is not an array is wrapped as one item.
    let odd = obj(vec![("content", s("no"))]);
    assert_eq!(text(&normalize_tool_result(&odd)), r#"{"content":[{"content":"no"}]}"#);
    assert_eq!(text(&normalize_tool_result(&Json::Int(3))), r#"{"content":[3]}"#);
}

#[test]
fn resource_read_results() {
    assert_eq!(
        text(&resource_text_result("u://x", "body", None)),
        r#"{"contents":[{"mimeType":"text/plain","text":"body","type":"resource","uri":"u://x"}]}"#
    );
    assert_eq!(
        text(&resource_blob("u://b", "QQ==", "application/octet-stream")),
        r#"{"contents":[{"blob":"QQ==","mimeType":"application/octet-stream","type":"resource","uri":"u://b"}]}"#
    );
    let items = [EmbeddedResource::text_item("a", "t", Some("text/markdown".into()))];
    assert_eq!(text(&resources_read_result(&items)), text(&resource_contents(&items)));
}

#[test]
fn completion_results() {
    let v = vec!["a".to_string(), "b".to_string()];
    assert_eq!(
        text(&completion_complete_result(&v, Some(2), Some(true))),
        r#"{"completion":{"hasMore":true,"total":2,"values":["a","b"]}}"#
    );
    assert_eq!(text(&basic_completion_result(&[])), r#"{"completion":{"hasMore":false,"values":[]}}"#);
    assert_eq!(
        text(&completion_complete_params("ref/prompt", Some("p".into()), None, "arg", "va")),
        r#"{"argument":{"name":"arg","value":"va"},"ref":{"name":"p","type":"ref/prompt"}}"#
    );
    assert_eq!(text(&completion_ref("ref/resource", None, Some("u".into()))), r#"{"type":"ref/resource","uri":"u"}"#);
    assert_eq!(text(&completion_argument("n", "v")), r#"{"name":"n","value":"v"}"#);
}

#[test]
fn request_params() {
    assert_eq!(text(&implementation_info("c", "1")), r#"{"name":"c","version":"1"}"#);
    assert_eq!(
        text(&client_capabilities(Some(true), true, false)),
        r#"{"roots":{"listChanged":true},"sampling":{}}"#
    );
    assert_eq!(text(&client_capabilities(None, false, true)), r#"{"elicitation":{}}"#);
    assert_eq!(
        text(&initialize_params("2025-03-26", "c", "1", Json::empty_object())),
        r#"{"capabilities":{},"clientInfo":{"name":"c","version":"1"},"protocolVersion":"2025-03-26"}"#
    );
    assert_eq!(text(&list_params(None)), "{}");
    assert_eq!(text(&list_params(Some("x".into()))), r#"{"cursor":"x"}"#);
    assert_eq!(text(&tools_call_params("t", None)), r#"{"name":"t"}"#);
    assert_eq!(
        text(&tools_call_params_with_progress("t", Some(Json::empty_object()), Some(Json::Int(5)))),
        r#"{"_meta":{"progressToken":5},"arguments":{},"name":"t"}"#
    );
    assert_eq!(text(&resources_read_params("u")), r#"{"uri":"u"}"#);
    assert_eq!(text(&resources_subscribe_params("u")), r#"{"uri":"u"}"#);
    assert_eq!(text(&resources_unsubscribe_params("u")), r#"{"uri":"u"}"#);
    let mut args = TextMap::new();
    args.insert("z".to_string(), "1".to_string());
    args.insert("a".to_string(), "2".to_string());
    assert_eq!(text(&prompts_get_params("p", Some(args))), r#"{"arguments":{"a":"2","z":"1"},"name":"p"}"#);
    assert_eq!(text(&prompts_get_params("p", None)), r#"{"name":"p"}"#);
    assert_eq!(text(&logging_set_level_params("info")), r#"{"level":"info"}"#);
}

#[test]
fn notification_params() {
    assert_eq!(
        text(&progress_params(s("t"), Json::Float("0.5".into()), Some(Json::Int(1)), Some("m".into()))),
        r#"{"message":"m","progress":0.5,"progressToken":"t","total":1}"#
    );
    assert_eq!(
        text(&progress_notification_params(Json::Int(1), Json::Int(2), None, None)),
        r#"{"progress":2,"progressToken":1}"#
    );
    assert_eq!(
        text(&log_notification_params("info", s("d"), Some("lg".into()))),
        r#"{"data":"d","level":"info","logger":"lg"}"#
    );
    assert_eq!(text(&log_entry("warning", None, Some("lg".into()))), r#"{"level":"warning","logger":"lg"}"#);
    assert_eq!(text(&log_entry("error", Some(Json::Int(1)), None)), r#"{"data":1,"level":"error"}"#);
    assert_eq!(text(&cancelled_params(Json::Int(3), Some("r".into()))), r#"{"reason":"r","requestId":3}"#);
    assert_eq!(text(&cancellation_params(Json::Int(3), Some(""))), r#"{"requestId":3}"#);
    assert_eq!(text(&cancellation_params(s("a"), Some("why"))), r#"{"reason":"why","requestId":"a"}"#);
    assert_eq!(text(&meta_with_progress_token(s("p"))), r#"{"progressToken":"p"}"#);
}

#[test]
fn sampling_and_preferences() {
    assert_eq!(text(&model_hint(None)), "{}");
    assert_eq!(text(&model_hint(Some("model-x".into()))), r#"{"name":"model-x"}"#);
    let hints = [model_hint(Some("a".into()))];
    assert_eq!(
        text(&model_preferences(Some(Json::Float("0.5".into())), None, Some(Json::Int(1)), Some(&hints))),
        r#"{"costPriority":0.5,"hints":[{"name":"a"}],"intelligencePriority":1}"#
    );
    let a = content_annotations(Some(vec!["user".to_string()]), None);
    assert_eq!(a.audience, Some(vec!["user".to_string()]));
    let msgs = [obj(vec![("role", s("user"))])];
    assert_eq!(text(&sampling_create_params(&msgs, 10, None, None)), r#"{"maxTokens":10,"messages":[{"role":"user"}]}"#);
    assert_eq!(
        text(&sampling_create_params_ext(&[], 1, Some("sys".into()), None, Some("none".into()), None)),
        r#"{"includeContext":"none","maxTokens":1,"messages":[],"systemPrompt":"sys"}"#
    );
    assert_eq!(
        text(&sampling_create_result("assistant", Content::text("x"), "m", Some("endTurn".into()))),
        r#"{"content":{"text":"x","type":"text"},"model":"m","role":"assistant","stopReason":"endTurn"}"#
    );
    assert_eq!(
        text(&elicitation_create_params("msg", Json::empty_object())),
        r#"{"message":"msg","requestedSchema":{}}"#
    );
    assert_eq!(text(&elicitation_create_result("decline", None)), r#"{"action":"decline"}"#);
}

#[test]
fn prompt_results_and_pretty_content() {
    let msgs = [user_message("hi"), assistant_message("yo")];
    assert_eq!(
        text(&prompt_result("d", &msgs)),
        r#"{"description":"d","messages":[{"content":{"text":"hi","type":"text"},"role":"user"},{"content":{"text":"yo","type":"text"},"role":"assistant"}]}"#
    );
    assert_eq!(text(&prompt_messages(&[])), r#"{"messages":[]}"#);
    match json_text_content(&Json::Array(vec![Json::Null, Json::Bool(false)])) {
        Content::Text { text, .. } => assert_eq!(text, "[\n  null,\n  false\n]"),
        _ => panic!("text expected"),
    }
    match json_text_pretty(&Json::empty_array()) {
        Content::Text { text, .. } => assert_eq!(text, "[]"),
        _ => panic!("text expected"),
    }
    let unsorted = obj(vec![("b", Json::Int(1)), ("a", Json::Array(vec![Json::Int(1), Json::Int(2)])), ("c", Json::empty_object())]);
    match json_text_pretty(&unsorted) {
        Content::Text { text, .. } => assert_eq!(text, "{\n  \"a\": [\n    1,\n    2\n  ],\n  \"b\": 1,\n  \"c\": {}\n}"),
        _ => panic!("text expected"),
    }
}
