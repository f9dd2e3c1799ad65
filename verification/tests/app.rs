use mcp_sdk::app::{
    capabilities_from_inventory, conformance_app_config, create_mcp_app_state, create_server_state, inventory_counts,
    is_conformance_tool, mcp_app_capabilities, server_capabilities, server_info_body, AppConfig, CapabilityStyle,
    InventoryCounts, PaginationOptionsMeta, ServerIdentity, CONFORMANCE_PROMPT_NAMES, CONFORMANCE_RESOURCE_URIS,
    CONFORMANCE_TOOL_NAMES, DEFAULT_SERVER_NAME, DEFAULT_SERVER_VERSION,
};
use mcp_sdk::builders::{prompt, resource, resource_template, tool};
use mcp_sdk::json::Json;

fn field<'a>(j: &'a Json, key: &str) -> &'a Json {
    j.get(key).expect("member")
}

fn is_empty_object(j: &Json) -> bool {
    matches!(j, Json::Object(m) if m.is_empty())
}

#[test]
fn defaults_identity() {
    let id = ServerIdentity::resolve(None, None, None);
    assert_eq!(id.name, DEFAULT_SERVER_NAME);
    assert_eq!(id.version, DEFAULT_SERVER_VERSION);
    let id2 = ServerIdentity::resolve(Some("x".into()), Some("9".into()), Some("hi".into()));
    assert_eq!(id2.name, "x");
    assert_eq!(id2.instructions.as_deref(), Some("hi"));
}

#[test]
fn mcp_app_capabilities_empty_objects() {
    let caps = mcp_app_capabilities(InventoryCounts { tools: 1, resources: 0, resource_templates: 1, prompts: 1 });
    assert!(is_empty_object(field(&caps, "tools")));
    assert_eq!(field(field(&caps, "resources"), "subscribe").as_bool(), Some(true));
    assert!(field(&caps, "resources").get("listChanged").is_none());
    assert!(is_empty_object(field(&caps, "prompts")));
    assert!(field(&caps, "logging").is_object());
    assert!(field(&caps, "completions").is_object());
}

#[test]
fn legacy_create_server_capabilities_list_changed() {
    let caps = capabilities_from_inventory(
        InventoryCounts { tools: 2, resources: 1, resource_templates: 0, prompts: 1 },
        CapabilityStyle::LegacyCreateServer,
    );
    assert_eq!(field(field(&caps, "tools"), "listChanged").as_bool(), Some(true));
    assert_eq!(field(field(&caps, "resources"), "subscribe").as_bool(), Some(true));
    assert_eq!(field(field(&caps, "resources"), "listChanged").as_bool(), Some(true));
    assert_eq!(field(field(&caps, "prompts"), "listChanged").as_bool(), Some(true));
}

#[test]
fn create_mcp_app_state_builds_inventory() {
    let state = create_mcp_app_state(
        AppConfig::new()
            .with_name("demo")
            .with_tool("ping", tool().description("p").finish())
            .with_resource("readme", resource().uri("file:///README.md").finish().expect("uri"))
            .with_resource_template("file", resource_template().uri_template("file:///{path}").finish().expect("t"))
            .with_prompt("hello", prompt().description("h").finish()),
    );
    assert_eq!(state.name, "demo");
    assert_eq!(state.version, DEFAULT_SERVER_VERSION);
    assert_eq!(state.tools.len(), 1);
    assert_eq!(state.resources.len(), 1);
    assert_eq!(state.resource_templates.len(), 1);
    assert_eq!(state.prompts.len(), 1);
    assert!(is_empty_object(field(&state.capabilities, "tools")));
    assert_eq!(field(field(&state.capabilities, "resources"), "subscribe").as_bool(), Some(true));
    let counts = inventory_counts(&state);
    assert_eq!(counts.tools, 1);
    assert!(counts.has_resources_surface());
}

#[test]
fn create_server_state_legacy_style() {
    let state = create_server_state(
        AppConfig::new().with_version("2.0.0").with_tool("t", tool().finish()).with_prompt("p", prompt().finish()),
    );
    assert_eq!(state.version, "2.0.0");
    assert_eq!(field(field(&state.capabilities, "tools"), "listChanged").as_bool(), Some(true));
    assert_eq!(field(field(&state.capabilities, "prompts"), "listChanged").as_bool(), Some(true));
    assert!(state.capabilities.get("resources").is_none());
}

#[test]
fn empty_inventory_still_has_logging() {
    let state = create_mcp_app_state(AppConfig::new());
    assert!(field(&state.capabilities, "logging").is_object());
    assert!(field(&state.capabilities, "completions").is_object());
    assert!(state.capabilities.get("tools").is_none());
    let info =
        server_info_body(&ServerIdentity::resolve(Some(state.name.clone()), Some(state.version.clone()), None));
    assert_eq!(field(&info, "name").as_str().map(|s| s.as_str()), Some(DEFAULT_SERVER_NAME));
}

#[test]
fn wave4_product_app_pagination_meta() {
    let state = AppConfig::new()
        .with_pagination(PaginationOptionsMeta { default_page_size: Some(10), max_page_size: Some(50) })
        .build();
    assert_eq!(state.pagination.as_ref().and_then(|p| p.default_page_size), Some(10));
}

#[test]
fn conformance_catalog_and_config() {
    assert!(is_conformance_tool("test_simple_text"));
    assert!(!is_conformance_tool("not_a_tool"));
    let state = create_mcp_app_state(conformance_app_config());
    assert_eq!(state.name, "conformance-server");
    assert_eq!(state.tools.len(), CONFORMANCE_TOOL_NAMES.len());
    assert!(field(&state.capabilities, "tools").is_object());
    assert!(field(field(&state.capabilities, "resources"), "subscribe").as_bool().unwrap_or(false));
    assert!(state.prompts.contains_key(CONFORMANCE_PROMPT_NAMES[1]));
}

#[test]
fn conformance_catalog_matches_config() {
    let cfg = conformance_app_config();
    for name in CONFORMANCE_TOOL_NAMES {
        assert!(is_conformance_tool(name));
        let def = cfg.tools.get(name).expect("tool");
        assert_eq!(def.description.as_deref(), Some(name));
    }
    assert_eq!(cfg.resources.get("static").map(|d| d.uri.as_str()), Some(CONFORMANCE_RESOURCE_URIS[0]));
    assert_eq!(cfg.resources.get("static_blob").map(|d| d.uri.as_str()), Some(CONFORMANCE_RESOURCE_URIS[1]));
    assert!(cfg.prompts.contains_key(CONFORMANCE_PROMPT_NAMES[0]));
}

#[test]
fn capabilities_always_log_and_complete() {
    for style in [CapabilityStyle::McpApp, CapabilityStyle::LegacyCreateServer] {
        for n in 0..2usize {
            let caps = capabilities_from_inventory(
                InventoryCounts { tools: n, resources: 0, resource_templates: n, prompts: 0 },
                style,
            );
            assert!(field(&caps, "logging").is_object());
            assert!(field(&caps, "completions").is_object());
            assert_eq!(caps.get("tools").is_some(), n > 0);
            assert!(caps.get("prompts").is_none());
        }
    }
}

#[test]
fn server_capabilities_members() {
    let caps = server_capabilities(Some(true), None, None, None, true, false);
    match &caps {
        Json::Object(m) => {
            let mut keys: Vec<&str> = m.iter().map(|(k, _)| k.as_str()).collect();
            keys.sort();
            assert_eq!(keys, vec!["logging", "tools"]);
        }
        _ => panic!("object expected"),
    }
    let r = server_capabilities(None, None, Some(false), None, false, true);
    assert_eq!(field(field(&r, "resources"), "listChanged").as_bool(), Some(false));
    assert!(field(&r, "resources").get("subscribe").is_none());
    assert!(r.get("logging").is_none());
    assert_eq!(field(field(&caps, "tools"), "listChanged").as_bool(), Some(true));
}

#[test]
fn app_config_builder_keeps_fields() {
    let state = AppConfig::new()
        .with_name("n")
        .with_version("v")
        .with_instructions("do things")
        .with_style(CapabilityStyle::LegacyCreateServer)
        .build();
    assert_eq!(state.instructions.as_deref(), Some("do things"));
    assert!(state.capabilities.get("tools").is_none());
    assert!(state.pagination.is_none());
    let counts = inventory_counts(&state);
    assert!(!counts.has_resources_surface());
}
