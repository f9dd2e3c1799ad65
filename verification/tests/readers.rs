use mcp_sdk::envelopes::{normalize_tool_result, prompt_result, tool_error, tools_list_result};
use mcp_sdk::json::Json;
use mcp_sdk::protocol::{protocol_tool, user_message};
use mcp_sdk::streamable_http::initialize_result;
use mcp_sdk::readers::{
    call_params_has_progress_token, client_capability_flags, client_has_elicitation, client_has_sampling,
    completion_argument_value, completion_ref_is_prompt, completion_ref_is_resource, completion_ref_prompt_name,
    completion_ref_type, content_annotation_audience, content_array_nonempty, content_has_annotations,
    content_type_of, cursor_from_list_params, elicitation_params_valid, initialize_has_instructions,
    initialize_instructions, initialize_result_has_server_info, initialize_result_protocol_version,
    initialize_result_server_name, initialize_server_name, initialize_server_version, is_tool_error_result,
    list_has_next_cursor, list_next_cursor, list_result_array, list_result_len, log_level_from_set_params,
    logging_level_from_params, logging_set_level_params_valid, notifications_progress_params_valid, params_uri,
    progress_token_from_call_params, progress_token_from_meta, progress_token_from_params,
    prompt_argument_names, prompt_arguments_from_get_params, prompt_count_from_list,
    prompt_descriptor_name_present, prompt_name_from_get_params, prompt_names_from_list,
    prompt_result_description, prompt_result_first_role, prompt_result_message_count, prompts_get_params_valid,
    prompts_list_is_empty, resource_count_from_list, resource_description, resource_mime_type,
    resource_names_from_list, resource_template_count_from_list, resource_template_uri_present,
    resource_template_uri_template, resource_templates_count, resource_templates_list_is_empty,
    resource_uri_from_params, resource_uris_from_list, resources_list_is_empty, resources_read_params_valid,
    root_uri_at, root_uris_from_list, roots_list_count, roots_list_is_empty, roots_list_params_valid,
    tool_arguments_from_call_params, tool_arguments_or_empty, tool_context_progress_token, tool_count_from_list,
    tool_description, tool_descriptor_name_present, tool_error_message, tool_input_schema_is_object,
    tool_name_from_call_params, tool_names_from_list, tool_result_all_text, tool_result_content_count,
    tool_result_content_len, tool_result_first_content_type, tool_result_first_text, tool_result_has_structured,
    tool_result_is_error, tool_title_of, tools_call_has_progress_token, tools_call_name, tools_call_params_valid,
    tools_count_from_list, tools_list_is_empty, uri_from_subscribe_params,
};

fn from_value(v: &serde_json::Value) -> Json {
    match v {
        serde_json::Value::Null => Json::Null,
        serde_json::Value::Bool(b) => Json::Bool(*b),
        serde_json::Value::Number(n) => match n.as_i64() {
            Some(i) => Json::Int(i128::from(i)),
            None => match n.as_u64() {
                Some(u) => Json::Int(i128::from(u)),
                None => Json::Float(n.to_string()),
            },
        },
        serde_json::Value::String(s) => Json::Str(s.clone()),
        serde_json::Value::Array(a) => Json::Array(a.iter().map(from_value).collect()),
        serde_json::Value::Object(o) => Json::Object(o.iter().map(|(k, v)| (k.clone(), from_value(v))).collect()),
    }
}

fn j(text: &str) -> Json {
    from_value(&serde_json::from_str::<serde_json::Value>(text).expect("json"))
}

#[test]
fn list_readers() {
    let r = j(r#"{"tools":[{"name":"a","title":"T","description":"","inputSchema":{}},{"x":1},{"name":"b"}],"nextCursor":"c"}"#);
    assert_eq!(tool_names_from_list(&r), vec!["a".to_string(), "b".to_string()]);
    assert_eq!(tool_count_from_list(&r), 3);
    assert_eq!(tools_count_from_list(&r), 3);
    assert!(!tools_list_is_empty(&r));
    assert_eq!(list_next_cursor(&r), Some("c"));
    assert!(list_has_next_cursor(&r));
    assert!(!list_has_next_cursor(&j(r#"{"nextCursor":""}"#)));
    assert_eq!(list_result_len(&r, "tools"), 3);
    assert!(list_result_array(&r, "nextCursor").is_none());
    let first = &list_result_array(&r, "tools").unwrap()[0];
    assert_eq!(tool_title_of(first), Some("T"));
    assert_eq!(tool_description(first), None);
    assert!(tool_descriptor_name_present(first));
    assert!(tool_input_schema_is_object(first));
    assert!(!tool_input_schema_is_object(&j(r#"{"inputSchema":[]}"#)));

    let res = j(r#"{"resources":[{"uri":"u://a","name":"A","mimeType":"text/plain","description":"d"},{"uri":"u://b"}]}"#);
    assert_eq!(resource_uris_from_list(&res), vec!["u://a".to_string(), "u://b".to_string()]);
    assert_eq!(resource_names_from_list(&res), vec!["A".to_string()]);
    assert_eq!(resource_count_from_list(&res), 2);
    assert!(!resources_list_is_empty(&res));
    let a = &list_result_array(&res, "resources").unwrap()[0];
    assert_eq!(resource_mime_type(a), Some("text/plain"));
    assert_eq!(resource_description(a), Some("d"));

    let p = j(r#"{"prompts":[{"name":"p","arguments":[{"name":"x"},{"name":"y"}]}]}"#);
    assert_eq!(prompt_names_from_list(&p), vec!["p".to_string()]);
    assert_eq!(prompt_count_from_list(&p), 1);
    assert!(!prompts_list_is_empty(&p));
    let p0 = &list_result_array(&p, "prompts").unwrap()[0];
    assert_eq!(prompt_argument_names(p0), vec!["x".to_string(), "y".to_string()]);
    assert!(prompt_descriptor_name_present(p0));

    let t = j(r#"{"resourceTemplates":[{"uriTemplate":"a://{x}"}]}"#);
    assert_eq!(resource_template_count_from_list(&t), 1);
    assert_eq!(resource_templates_count(&t), 1);
    assert!(!resource_templates_list_is_empty(&t));
    let t0 = &list_result_array(&t, "resourceTemplates").unwrap()[0];
    assert_eq!(resource_template_uri_template(t0), Some("a://{x}"));
    assert!(resource_template_uri_present(t0));

    let roots = j(r#"{"roots":[{"uri":"file:///a"},{"uri":"file:///b","name":"B"}]}"#);
    assert_eq!(root_uris_from_list(&roots), vec!["file:///a".to_string(), "file:///b".to_string()]);
    assert_eq!(roots_list_count(&roots), 2);
    assert!(!roots_list_is_empty(&roots));
    assert_eq!(root_uri_at(&roots, 1), Some("file:///b"));
    assert_eq!(root_uri_at(&roots, 2), None);
    assert!(roots_list_is_empty(&j("{}")));
    assert!(tools_list_is_empty(&j(r#"{"tools":"x"}"#)));
}

#[test]
fn tool_result_readers() {
    let r = j(r#"{"content":[{"type":"text","text":"a"},{"type":"image","data":"x"},{"type":"text","text":"b"}],"isError":true,"structuredContent":{"k":1}}"#);
    assert!(is_tool_error_result(&r));
    assert!(tool_result_is_error(&r));
    assert_eq!(tool_result_first_text(&r), Some("a"));
    assert_eq!(tool_error_message(&r), Some("a"));
    assert_eq!(tool_result_all_text(&r).as_deref(), Some("ab"));
    assert_eq!(tool_result_content_len(&r), 3);
    assert_eq!(tool_result_content_count(&r), 3);
    assert!(content_array_nonempty(&r));
    assert!(tool_result_has_structured(&r));
    assert_eq!(tool_result_first_content_type(&r), Some("text"));
    let img_first = j(r#"{"content":[{"type":"image"}],"isError":"yes"}"#);
    assert_eq!(tool_result_first_text(&img_first), None);
    assert!(!is_tool_error_result(&img_first));
    assert_eq!(tool_error_message(&img_first), None);
    assert_eq!(tool_result_all_text(&img_first), None);
    assert_eq!(tool_result_all_text(&j("{}")), None);
    assert!(!content_array_nonempty(&j(r#"{"content":[]}"#)));
    assert!(!tool_result_has_structured(&j(r#"{"structuredContent":null}"#)));
}

#[test]
fn content_readers() {
    let c = j(r#"{"type":"text","text":"x","annotations":{"audience":["user","","assistant",3]}}"#);
    assert_eq!(content_type_of(&c), Some("text"));
    assert!(content_has_annotations(&c));
    assert_eq!(content_annotation_audience(&c), vec!["user".to_string(), "assistant".to_string()]);
    let one = j(r#"{"annotations":{"audience":"user"}}"#);
    assert_eq!(content_annotation_audience(&one), vec!["user".to_string()]);
    assert!(content_annotation_audience(&j(r#"{"annotations":{"audience":""}}"#)).is_empty());
    assert!(!content_has_annotations(&j(r#"{"annotations":{}}"#)));
    assert!(!content_has_annotations(&j(r#"{"annotations":[1]}"#)));
}

#[test]
fn params_readers() {
    let call = j(r#"{"name":"t","arguments":{"a":1},"progressToken":7,"_meta":{"progressToken":"m"}}"#);
    assert_eq!(tools_call_name(&call), Some("t"));
    assert_eq!(tool_name_from_call_params(&call), Some("t"));
    assert!(tools_call_params_valid(&call));
    assert_eq!(tool_arguments_from_call_params(&call), Some(&j(r#"{"a":1}"#)));
    assert_eq!(tool_arguments_or_empty(&call), j(r#"{"a":1}"#));
    assert_eq!(progress_token_from_params(&call), Some(Json::Int(7)));
    assert_eq!(progress_token_from_call_params(&call), Some(&Json::Str("m".into())));
    assert_eq!(tool_context_progress_token(&call), Some(Json::Str("m".into())));
    assert!(tools_call_has_progress_token(&call));
    assert!(call_params_has_progress_token(&call));
    assert!(notifications_progress_params_valid(&call));
    assert_eq!(progress_token_from_meta(&j(r#"{"progressToken":1}"#)), Some(&Json::Int(1)));
    let bare = j(r#"{"name":"","arguments":[1],"_meta":{"progressToken":null}}"#);
    assert_eq!(tool_name_from_call_params(&bare), None);
    assert!(!tools_call_params_valid(&bare));
    assert_eq!(tool_arguments_from_call_params(&bare), None);
    assert_eq!(tool_arguments_or_empty(&bare), Json::empty_object());
    assert_eq!(tool_context_progress_token(&bare), None);
    assert!(call_params_has_progress_token(&bare));
    assert!(!tools_call_has_progress_token(&j(r#"{"name":"t"}"#)));

    let read = j(r#"{"uri":"  u://x  ","cursor":"   ","level":"info","message":"m"}"#);
    assert_eq!(params_uri(&read), Some("  u://x  "));
    assert_eq!(resource_uri_from_params(&read), Some("  u://x  "));
    assert!(resources_read_params_valid(&read));
    assert_eq!(uri_from_subscribe_params(&read).as_deref(), Some("u://x"));
    assert_eq!(cursor_from_list_params(&read), None);
    assert_eq!(logging_level_from_params(&read), Some("info"));
    assert_eq!(log_level_from_set_params(&read), Some("info"));
    assert!(logging_set_level_params_valid(&read));
    assert!(!logging_set_level_params_valid(&j(r#"{"level":"loud"}"#)));
    assert!(elicitation_params_valid(&read));
    assert!(!elicitation_params_valid(&j(r#"{"message":""}"#)));

    let get = j(r#"{"name":"p","arguments":{"k":"v"}}"#);
    assert_eq!(prompt_name_from_get_params(&get), Some("p"));
    assert!(prompts_get_params_valid(&get));
    assert_eq!(prompt_arguments_from_get_params(&get), j(r#"{"k":"v"}"#));
    assert_eq!(prompt_arguments_from_get_params(&j("{}")), Json::empty_object());

    assert!(roots_list_params_valid(None));
    assert!(roots_list_params_valid(Some(&Json::Null)));
    assert!(roots_list_params_valid(Some(&Json::empty_object())));
    assert!(!roots_list_params_valid(Some(&Json::Int(1))));
}

#[test]
fn completion_readers() {
    let p = j(r#"{"ref":{"type":"ref/prompt","name":"greet"},"argument":{"name":"a","value":"v"}}"#);
    assert_eq!(completion_ref_type(&p), Some("ref/prompt"));
    assert!(completion_ref_is_prompt(&p));
    assert!(!completion_ref_is_resource(&p));
    assert_eq!(completion_ref_prompt_name(&p), Some("greet"));
    assert_eq!(completion_argument_value(&p), Some("v"));
    let r = j(r#"{"ref":{"type":"ref/resource","name":"n"}}"#);
    assert!(completion_ref_is_resource(&r));
    assert_eq!(completion_ref_prompt_name(&r), None);
    assert_eq!(completion_ref_type(&j(r#"{"ref":{"type":"ref/other"}}"#)), None);
}

#[test]
fn initialize_and_capability_readers() {
    let r = j(r#"{"protocolVersion":"2025-03-26","serverInfo":{"name":"s","version":""},"instructions":"do"}"#);
    assert_eq!(initialize_result_protocol_version(&r), Some("2025-03-26"));
    assert_eq!(initialize_result_server_name(&r), Some("s"));
    assert_eq!(initialize_server_name(&r), Some("s"));
    assert_eq!(initialize_server_version(&r), None);
    assert_eq!(initialize_instructions(&r), Some("do"));
    assert!(initialize_has_instructions(&r));
    assert!(initialize_result_has_server_info(&r));
    assert!(!initialize_result_has_server_info(&j(r#"{"serverInfo":{"version":"1"}}"#)));
    let caps = j(r#"{"roots":{},"sampling":null,"elicitation":{}}"#);
    assert!(!client_has_sampling(&caps));
    assert!(client_has_elicitation(&caps));
    assert_eq!(client_capability_flags(&caps), (true, false, true));

    let pr = j(r#"{"description":"d","messages":[{"role":"assistant"},{"role":"user"}]}"#);
    assert_eq!(prompt_result_description(&pr), Some("d"));
    assert_eq!(prompt_result_message_count(&pr), 2);
    assert_eq!(prompt_result_first_role(&pr), Some("assistant"));
}

#[test]
fn builders_read_back() {
    let e = tool_error("went wrong");
    assert!(is_tool_error_result(&e));
    assert_eq!(tool_error_message(&e), Some("went wrong"));
    let tools = [
        protocol_tool("a", None, Json::empty_object(), None),
        protocol_tool("b", Some("d".into()), Json::empty_object(), None),
    ];
    let list = tools_list_result(&tools, Some("next".into()));
    assert_eq!(tool_names_from_list(&list), vec!["a".to_string(), "b".to_string()]);
    assert_eq!(list_next_cursor(&list), Some("next"));
    assert_eq!(list_result_len(&list, "tools"), 2);
    let pr = prompt_result("about", &[user_message("x")]);
    assert_eq!(prompt_result_description(&pr), Some("about"));
    assert_eq!(prompt_result_message_count(&pr), 1);
    let init = initialize_result("2025-03-26", "srv", "1.2", Json::empty_object(), Some("read me".into()));
    assert_eq!(initialize_result_protocol_version(&init), Some("2025-03-26"));
    assert_eq!(initialize_result_server_name(&init), Some("srv"));
    assert_eq!(initialize_server_version(&init), Some("1.2"));
    assert_eq!(initialize_instructions(&init), Some("read me"));
    let once = normalize_tool_result(&Json::Str("x".into()));
    assert_eq!(normalize_tool_result(&once), once);
}
