use mcp_sdk::clients::{
    build_elicitation_params, build_elicitation_result, build_sampling_params, build_sampling_params_ext,
    build_sampling_result, elicitation_create_call, elicitation_method, elicitation_result_action,
    elicitation_result_content, is_elicitation_action, is_valid_property_type, sampling_assistant_text,
    sampling_create_message_call, sampling_method, sampling_result_model, sampling_result_text, sampling_user_text,
    string_property, ElicitationSchemaMeta, ELICITATION_PROPERTY_TYPES, SAMPLING_ROLES,
};
use mcp_sdk::json::Json;
use mcp_sdk::protocol::Content;

fn obj(members: Vec<(&str, Json)>) -> Json {
    Json::Object(members.into_iter().map(|(k, v)| (k.to_string(), v)).collect())
}

fn field<'a>(j: &'a Json, key: &str) -> &'a Json {
    j.get(key).expect("member")
}

fn text(j: &Json) -> Option<&str> {
    j.as_str().map(|s| s.as_str())
}

#[test]
fn sampling_method_and_call() {
    assert_eq!(sampling_method(), "sampling/createMessage");
    let msgs = [sampling_user_text("Hello")];
    let params = build_sampling_params(&msgs, 100, None, None);
    assert!(matches!(field(&params, "maxTokens"), Json::Int(100)));
    let first = &field(&params, "messages").as_array().unwrap()[0];
    assert_eq!(text(field(first, "role")), Some("user"));
    let call = sampling_create_message_call(params);
    assert_eq!(call.method, "sampling/createMessage");
    let result = build_sampling_result("assistant", Content::text("Hi"), "test-model", Some("endTurn".into()));
    assert_eq!(sampling_result_text(&result).as_deref(), Some("Hi"));
    assert_eq!(sampling_result_model(&result).as_deref(), Some("test-model"));
    assert_eq!(text(field(&result, "stopReason")), Some("endTurn"));
}

#[test]
fn sampling_params_ext() {
    let msgs = [sampling_assistant_text("prev")];
    let params = build_sampling_params_ext(
        &msgs,
        50,
        Some("sys".into()),
        Some(Json::Float("0.2".into())),
        Some("none".into()),
        Some(obj(vec![("costPriority", Json::Float("0.5".into()))])),
    );
    assert_eq!(text(field(&params, "systemPrompt")), Some("sys"));
    assert_eq!(text(field(&params, "includeContext")), Some("none"));
    assert!(matches!(field(field(&params, "modelPreferences"), "costPriority"), Json::Float(t) if t == "0.5"));
}

#[test]
fn elicitation_call_and_result() {
    assert_eq!(elicitation_method(), "elicitation/create");
    let schema = ElicitationSchemaMeta::object(
        obj(vec![("apiKey", string_property(Some("Your API key")))]),
        Some(vec!["apiKey".into()]),
    );
    let call = elicitation_create_call("Please provide key", &schema);
    assert_eq!(call.method, "elicitation/create");
    assert_eq!(text(field(&call.params, "message")), Some("Please provide key"));
    assert_eq!(text(field(field(&call.params, "requestedSchema"), "type")), Some("object"));

    let accepted = build_elicitation_result("accept", Some(obj(vec![("apiKey", Json::Str("k".into()))])));
    assert_eq!(elicitation_result_action(&accepted).as_deref(), Some("accept"));
    assert_eq!(
        elicitation_result_content(&accepted).as_ref().and_then(|c| c.get("apiKey")).and_then(|v| text(v)),
        Some("k")
    );
    let declined = build_elicitation_result("decline", None);
    assert!(elicitation_result_content(&declined).is_none());
    assert!(is_elicitation_action("cancel"));
    assert!(!is_elicitation_action("maybe"));
    assert!(is_valid_property_type("integer"));
    assert!(!is_valid_property_type("object"));
}

#[test]
fn wave4_product_clients_roles() {
    assert!(SAMPLING_ROLES.contains(&"user"));
    assert!(SAMPLING_ROLES.contains(&"assistant"));
    assert_eq!(ELICITATION_PROPERTY_TYPES.len(), 4);
}

#[test]
fn sampling_result_without_text_content() {
    let result = build_sampling_result("assistant", Content::image("AAAA", "image/png"), "m", None);
    assert!(sampling_result_text(&result).is_none());
    assert!(result.get("stopReason").is_none());
    assert_eq!(text(field(&result, "role")), Some("assistant"));
}

#[test]
fn elicitation_params_shape() {
    let schema = ElicitationSchemaMeta::object(Json::empty_object(), None);
    let params = build_elicitation_params("hi", &schema);
    let rs = field(&params, "requestedSchema");
    assert!(rs.get("required").is_none());
    assert!(field(rs, "properties").is_object());
    let p = string_property(None);
    assert_eq!(text(field(&p, "type")), Some("string"));
    assert!(p.get("description").is_none());
}
