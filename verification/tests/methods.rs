use mcp_sdk::methods::{
    dispatch_message_kind, dispatch_returns_none, handler_error_message, is_client_to_server_request_method,
    is_lifecycle_method, is_list_changed_notification, is_mcp_method, is_mcp_notification_method,
    is_mcp_request_method, is_server_to_client_method, is_supported_protocol_version, is_valid_log_level,
    log_level_at_least, log_level_index, method_direction, method_domain, negotiate_protocol_version,
    normalize_message_role, normalize_protocol_version, sampling_max_tokens_valid, unknown_method_error_message,
    DispatchMessageKind,
};

#[test]
fn protocol_version_negotiation() {
    assert_eq!(negotiate_protocol_version(Some("2024-11-05")), "2024-11-05");
    assert_eq!(negotiate_protocol_version(Some("1999-01-01")), "2025-03-26");
    assert_eq!(negotiate_protocol_version(None), "2025-03-26");
    assert!(is_supported_protocol_version("2025-03-26"));
    assert!(!is_supported_protocol_version(""));
    assert_eq!(normalize_protocol_version("  2025-03-26 ").as_deref(), Some("2025-03-26"));
    assert_eq!(normalize_protocol_version("   "), None);
}

#[test]
fn method_catalogs() {
    assert!(is_mcp_method("tools/call"));
    assert!(!is_mcp_method("tools/unknown"));
    assert!(is_lifecycle_method("notifications/initialized"));
    assert!(is_client_to_server_request_method("completion/complete"));
    assert!(!is_client_to_server_request_method("sampling/createMessage"));
    assert!(is_server_to_client_method("elicitation/create"));
    assert!(is_list_changed_notification("notifications/roots/list_changed"));
    assert!(!is_list_changed_notification("notifications/resources/updated"));
    assert!(is_mcp_notification_method("notifications/cancelled"));
    assert!(is_mcp_request_method("ping"));
    assert!(!is_mcp_request_method("notifications/cancelled"));
}

#[test]
fn domains_and_directions() {
    assert_eq!(method_domain("initialize"), "lifecycle");
    assert_eq!(method_domain("resources/read"), "resources");
    assert_eq!(method_domain("notifications/tools/list_changed"), "tools");
    assert_eq!(method_domain("notifications/message"), "logging");
    assert_eq!(method_domain("completion/complete"), "completion");
    assert_eq!(method_domain("notifications/progress"), "progress");
    assert_eq!(method_domain("roots/list"), "roots");
    assert_eq!(method_domain("x/y"), "unknown");
    assert_eq!(method_direction("sampling/createMessage"), "server_to_client");
    assert_eq!(method_direction("notifications/initialized"), "notification");
    assert_eq!(method_direction("tools/list"), "client_to_server");
    assert_eq!(method_direction("x"), "unknown");
}

#[test]
fn log_levels_order() {
    assert_eq!(log_level_index("debug"), Some(0));
    assert_eq!(log_level_index("emergency"), Some(7));
    assert_eq!(log_level_index("trace"), None);
    assert!(log_level_at_least("error", "warning"));
    assert!(!log_level_at_least("info", "error"));
    assert!(!log_level_at_least("bogus", "debug"));
    assert!(is_valid_log_level("notice"));
}

#[test]
fn roles_dispatch_and_messages() {
    assert_eq!(normalize_message_role(" USER "), Some("user"));
    assert_eq!(normalize_message_role("Assistant"), Some("assistant"));
    assert_eq!(normalize_message_role("system"), None);
    assert_eq!(dispatch_message_kind(true, false), DispatchMessageKind::Notification);
    assert!(dispatch_returns_none(true, false));
    assert!(!dispatch_returns_none(false, true));
    assert!(sampling_max_tokens_valid(1));
    assert!(!sampling_max_tokens_valid(0));
    assert_eq!(handler_error_message(true, "m", "d"), "m");
    assert_eq!(handler_error_message(false, "m", "d"), "d");
    assert_eq!(unknown_method_error_message("x/y"), "Unknown method: x/y");
}
