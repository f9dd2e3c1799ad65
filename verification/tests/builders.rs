use mcp_sdk::builders::{
    audio, empty_object_schema, image, interpolate_template, prompt, prompt_arg,     prompts_to_protocol, resource, resource_template, resources_to_protocol, text, tool, tools_to_protocol,
    assistant, user, message, prompt_result_with_desc, tool_err, json_content, normalize_result, resource_text,
    resource_blob_b64, messages,
};
use mcp_sdk::json::Json;
use mcp_sdk::protocol::Content;
use mcp_sdk::textmap::TextMap;

fn obj(members: Vec<(&str, Json)>) -> Json {
    Json::Object(members.into_iter().map(|(k, v)| (k.to_string(), v)).collect())
}

fn s(t: &str) -> Json {
    Json::Str(t.to_string())
}

fn field<'a>(j: &'a Json, key: &str) -> &'a Json {
    j.get(key).expect("member")
}

fn text_of(j: &Json) -> Option<&str> {
    j.as_str().map(|x| x.as_str())
}

fn at(j: &Json, i: usize) -> &Json {
    &j.as_array().expect("array")[i]
}

#[test]
fn tool_builder_empty_schema_and_protocol() {
    let def = tool().description("Ping").finish();
    assert_eq!(def.description.as_deref(), Some("Ping"));
    assert_eq!(def.input_schema, empty_object_schema());
    let pt = def.to_protocol("ping");
    assert_eq!(pt.name, "ping");
    assert_eq!(pt.description.as_deref(), Some("Ping"));
    assert_eq!(text_of(field(&pt.input_schema, "type")), Some("object"));
}

#[test]
fn tool_builder_with_schema() {
    let schema = obj(vec![
        ("type", s("object")),
        ("properties", obj(vec![("name", obj(vec![("type", s("string"))]))])),
        ("required", Json::Array(vec![s("name")])),
    ]);
    let def = tool().input_schema(schema.deep_clone()).description("Greet").finish();
    assert_eq!(def.input_schema, schema);
    let pt = def.to_protocol("greet");
    assert_eq!(text_of(at(field(&pt.input_schema, "required"), 0)), Some("name"));
}

#[test]
fn resource_builder_requires_uri() {
    assert!(resource().description("x").finish().is_none());
    let def = resource()
        .uri("file:///README.md")
        .description("README")
        .mime_type("text/markdown")
        .finish()
        .expect("uri set");
    let pr = def.to_protocol("readme");
    assert_eq!(pr.uri, "file:///README.md");
    assert_eq!(pr.name, "readme");
    assert_eq!(pr.mime_type.as_deref(), Some("text/markdown"));
}

#[test]
fn template_builder_match_and_extract() {
    let def = resource_template().uri_template("file:///{path}").description("Any file").finish().expect("template");
    assert!(def.matches("file:///tmp"));
    assert!(!def.matches("file:///tmp/a"));
    let p = def.extract_params("file:///tmp").expect("params");
    assert_eq!(p.get("path").map(String::as_str), Some("tmp"));
    let pt = def.to_protocol("file");
    assert_eq!(pt.uri_template, "file:///{path}");
}

#[test]
fn inventory_maps_to_protocol() {
    let mut tools = TextMap::new();
    tools.insert("ping".to_string(), tool().description("p").finish());
    let list = tools_to_protocol(&tools);
    assert_eq!(list.len(), 1);
    assert_eq!(list[0].name, "ping");

    let mut resources = TextMap::new();
    resources.insert("r".to_string(), resource().uri("u://r").finish().expect("uri"));
    assert_eq!(resources_to_protocol(&resources)[0].name, "r");

    let mut prompts = TextMap::new();
    prompts.insert("p".to_string(), prompt().description("d").finish());
    assert_eq!(prompts_to_protocol(&prompts)[0].name, "p");
}

#[test]
fn template_roundtrip_and_interpolation_edges() {
    let def = resource_template().uri_template("db://{table}/{id}").finish().expect("template");
    let p = def.extract_params("db://users/42").expect("params");
    assert_eq!(p.get("table").map(String::as_str), Some("users"));
    assert_eq!(p.get("id").map(String::as_str), Some("42"));
    assert!(def.extract_params("db://users").is_none());
    assert!(resource_template().description("no template").finish().is_none());
    let mut args = TextMap::new();
    args.insert("a".to_string(), "1".to_string());
    assert_eq!(interpolate_template("{{a}}-{{a}}-{{b}}", &args), "1-1-{{b}}");
}


#[test]
fn prompt_builder_args_and_messages() {
    let def = prompt().description("Review").argument(prompt_arg("language", Some("Lang".into()), Some(true))).finish();
    assert_eq!(def.arguments.len(), 1);
    let pp = def.to_protocol("review");
    assert_eq!(pp.name, "review");
    let msgs = [user("hi"), assistant("yo")];
    let body = prompt_result_with_desc("d", &msgs);
    assert_eq!(text_of(field(&body, "description")), Some("d"));
    assert_eq!(field(&body, "messages").as_array().map(|a| a.len()), Some(2));
    let mut args = TextMap::new();
    args.insert("name".to_string(), "Ada".to_string());
    assert_eq!(interpolate_template("Hello {{name}}", &args), "Hello Ada");
    assert_eq!(interpolate_template("{{missing}}", &args), "{{missing}}");
}


#[test]
fn content_helpers_and_normalize() {
    let t = text("hello");
    assert!(matches!(t, Content::Text { .. }));
    let img = image("AAAA", "image/png");
    assert!(matches!(img, Content::Image { .. }));
    let aud = audio("BBBB", "audio/wav");
    assert!(matches!(aud, Content::Audio { .. }));
    let err = tool_err("boom");
    assert_eq!(field(&err, "isError").as_bool(), Some(true));
    let single = obj(vec![("type", s("text")), ("text", s("x"))]);
    let norm = normalize_result(&single);
    assert!(matches!(field(&norm, "content"), Json::Array(_)));
    let full = obj(vec![("content", Json::Array(vec![obj(vec![("type", s("text")), ("text", s("x"))])]))]);
    assert_eq!(text_of(field(at(field(&normalize_result(&full), "content"), 0), "text")), Some("x"));
    let rt = resource_text("u://x", "body", Some("text/plain".into()));
    assert_eq!(text_of(field(at(field(&rt, "contents"), 0), "uri")), Some("u://x"));
    let rb = resource_blob_b64("u://b", "QQ==", "application/octet-stream");
    assert!(matches!(field(at(field(&rb, "contents"), 0), "blob"), Json::Str(_)));
}


#[test]
fn wave4_product_builders_surface() {
    let jc = json_content(&obj(vec![("a", Json::Int(1))]));
    assert!(matches!(jc, Content::Text { .. }));
    let m = message("user", text("z"));
    assert_eq!(m.role, "user");
    assert_eq!(field(&messages(&[m]), "messages").as_array().map(Vec::len), Some(1));
}


#[test]
fn json_content_is_pretty_text() {
    match json_content(&obj(vec![("a", Json::Int(1))])) {
        Content::Text { text, .. } => assert_eq!(text, "{\n  \"a\": 1\n}"),
        _ => panic!("text content expected"),
    }
    let nested = obj(vec![
        ("a", Json::Array(vec![Json::Int(1), obj(vec![("b", Json::Array(vec![]))])])),
        ("c", Json::empty_object()),
    ]);
    match json_content(&nested) {
        Content::Text { text, .. } => {
            assert_eq!(text, "{\n  \"a\": [\n    1,\n    {\n      \"b\": []\n    }\n  ],\n  \"c\": {}\n}")
        }
        _ => panic!("text content expected"),
    }
    match json_content(&Json::Str("x".into())) {
        Content::Text { text, .. } => assert_eq!(text, "\"x\""),
        _ => panic!("text content expected"),
    }
}
